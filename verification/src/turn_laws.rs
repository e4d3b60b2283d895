//! What each kind of frame, control and event means for a turn, said of the frame, the control or the
//! event itself.

use vstd::prelude::*;
use vstd::utf8::*;

use crate::error;
use crate::json;
use crate::json::JsonView;
use crate::ledger;
use crate::ledger::{ControlKind, LedgerView};
use crate::prompt;
use crate::run;
use crate::run::{AfterOutputView, AfterWriteView, RunView};
use crate::turn;
use crate::turn::{ControlView, EventView, SentView, StepView, Stepped, TurnOutcome, TurnView};

verus! {

/// The kinds of frame that mean something to a turn are different words.
pub proof fn lemma_kinds_differ()
    ensures
        "response"@ != "prompt_result"@,
        "agent_end"@ != "response"@,
        "agent_end"@ != "prompt_result"@,
        "agent_start"@ != "response"@,
        "agent_start"@ != "prompt_result"@,
        "agent_start"@ != "agent_end"@,
        "command_output"@ != "response"@,
        "command_output"@ != "prompt_result"@,
        "command_output"@ != "agent_end"@,
        "command_output"@ != "agent_start"@,
        "extension_ui_request"@.len() == 20,
        "host_tool_call"@.len() == 14,
        "host_tool_call"@[0] == 'h',
        "host_tool_cancel"@.len() == 16,
        "host_uri_request"@.len() == 16,
        "host_tool_cancel"@[5] == 't',
        "host_uri_request"@[5] == 'u',
        "host_uri_cancel"@.len() == 15,
        "response"@.len() == 8,
        "prompt_result"@.len() == 13,
        "agent_end"@.len() == 9,
        "agent_start"@.len() == 11,
        "command_output"@.len() == 14,
        "command_output"@[0] == 'c',
{
    reveal_strlit("response");
    reveal_strlit("prompt_result");
    reveal_strlit("agent_end");
    reveal_strlit("agent_start");
    reveal_strlit("command_output");
    reveal_strlit("extension_ui_request");
    reveal_strlit("host_tool_call");
    reveal_strlit("host_tool_cancel");
    reveal_strlit("host_uri_request");
    reveal_strlit("host_uri_cancel");
    assert("response"@.len() == 8);
    assert("prompt_result"@.len() == 13);
    assert("agent_end"@.len() == 9);
    assert("agent_start"@.len() == 11);
    assert("command_output"@.len() == 14);
}

/// A frame of a kind that a turn has no use for itself goes to the normalizer, whole and unchanged,
/// whether or not the turn is interrupted; the turn and the ledger stay as they were. So does the
/// output of a command once the agent has started.
pub proof fn law_other_frames_are_normalized<U>(
    turn: TurnView<U>,
    ledger: LedgerView,
    frame: JsonView,
    output_limit: usize,
    now: u64,
    kind: Seq<char>,
)
    requires
        frame.get("type"@) == Some(JsonView::Text(kind)),
        kind != "response"@,
        kind != "prompt_result"@,
        kind != "extension_ui_request"@,
        kind != "host_tool_call"@,
        kind != "host_tool_cancel"@,
        kind != "host_uri_request"@,
        kind != "host_uri_cancel"@,
        kind != "agent_end"@,
        kind != "agent_start"@,
        kind == "command_output"@ ==> turn.agent_started,
    ensures
        turn::spec_on_frame(turn, ledger, frame, output_limit) == (Stepped::<U> {
            step: Ok(StepView::Normalize { early: None }),
            turn,
            ledger,
        }),
        run::spec_after_wait(turn, ledger, Ok(Some(frame)), output_limit, now) == (
            Ok::<RunView<U>, error::ErrorView>(RunView::Normalize { turn, source: frame }),
            ledger,
        ),
{
}

/// A frame without a kind ends the turn.
pub proof fn law_frames_without_a_kind_fail<U>(
    turn: TurnView<U>,
    ledger: LedgerView,
    frame: JsonView,
    output_limit: usize,
    now: u64,
)
    requires
        !(frame.get("type"@) matches Some(JsonView::Text(_))),
    ensures
        run::spec_after_wait(turn, ledger, Ok(Some(frame)), output_limit, now) == (
            Err::<RunView<U>, error::ErrorView>(
                error::protocol_fault("OMP frame is missing string type"@),
            ),
            ledger,
        ),
{
}

/// When the agent starts, what commands printed before it is shown first and forgotten, and then the
/// very frame that said so goes to the normalizer.
pub proof fn law_agent_start_shows_early_output<U>(
    turn: TurnView<U>,
    ledger: LedgerView,
    frame: JsonView,
    output_limit: usize,
    now: u64,
)
    requires
        frame.get("type"@) == Some(JsonView::Text("agent_start"@)),
    ensures
        ({
            let started = TurnView {
                agent_started: true,
                pending_output: Seq::<char>::empty(),
                ..turn
            };
            let then = AfterOutputView::Normalize(frame);
            &&& run::spec_after_wait(turn, ledger, Ok(Some(frame)), output_limit, now) == (
                Ok::<RunView<U>, error::ErrorView>(
                    RunView::Output {
                        turn: started,
                        output: turn.pending_output,
                        whole: false,
                        then,
                    },
                ),
                ledger,
            )
            &&& run::spec_after_output(started, then, now) == (RunView::<U>::Normalize {
                turn: started,
                source: frame,
            })
        }),
{
    lemma_kinds_differ();
}

/// Before the agent has started, what a command prints is put behind what was printed before, as long
/// as all of it keeps within the limit in bytes.
pub proof fn law_early_output_is_kept_in_order<U>(
    turn: TurnView<U>,
    ledger: LedgerView,
    frame: JsonView,
    output_limit: usize,
    now: u64,
)
    requires
        frame.get("type"@) == Some(JsonView::Text("command_output"@)),
        !turn.agent_started,
    ensures
        run::spec_after_wait(turn, ledger, Ok(Some(frame)), output_limit, now) == (
            match frame.get("text"@) {
                Some(JsonView::Text(output)) => if encode_utf8(turn.pending_output).len()
                    + encode_utf8(output).len() <= output_limit {
                    Ok(
                        RunView::Poll {
                            turn: TurnView {
                                pending_output: turn.pending_output + output,
                                last_progress: now,
                                ..turn
                            },
                        },
                    )
                } else {
                    Err::<RunView<U>, error::ErrorView>(
                        error::protocol_fault(
                            "OMP pending command output exceeds its size limit"@,
                        ),
                    )
                },
                _ => Err(error::protocol_fault("OMP command_output omitted text"@)),
            },
            ledger,
        ),
{
    lemma_kinds_differ();
}

/// A successful response to the prompt acknowledges it. Where it says that no agent was called, what
/// commands printed is shown as the answer and the turn is at rest; otherwise the turn goes on.
pub proof fn law_prompt_response_acknowledges<U>(
    turn: TurnView<U>,
    ledger: LedgerView,
    frame: JsonView,
    output_limit: usize,
    now: u64,
)
    requires
        frame.get("type"@) == Some(JsonView::Text("response"@)),
        frame.get("id"@) == Some(JsonView::Text(turn.prompt_id)),
        frame.get("command"@) == Some(JsonView::Text("prompt"@)),
        frame.get("success"@) == Some(JsonView::Bool(true)),
    ensures
        ({
            let direct = frame.get("data"@) matches Some(data) && data.get("agentInvoked"@) == Some(
                JsonView::Bool(false),
            );
            run::spec_after_wait(turn, ledger, Ok(Some(frame)), output_limit, now) == (
                Ok::<RunView<U>, error::ErrorView>(
                    if direct {
                        RunView::Output {
                            turn: TurnView {
                                prompt_acknowledged: true,
                                terminal_seen: true,
                                pending_output: Seq::empty(),
                                ..turn
                            },
                            output: turn.pending_output,
                            whole: true,
                            then: AfterOutputView::Settle,
                        }
                    } else {
                        RunView::Poll {
                            turn: TurnView {
                                prompt_acknowledged: true,
                                last_progress: now,
                                ..turn
                            },
                        }
                    },
                ),
                ledger,
            )
        }),
{
}

/// A response to the prompt under another name, or that reports a failure, ends the turn; the reason
/// that the runtime gives is told, as far as it is not too long.
pub proof fn law_prompt_failure_ends_the_turn<U>(
    turn: TurnView<U>,
    ledger: LedgerView,
    frame: JsonView,
    output_limit: usize,
    now: u64,
    command: Seq<char>,
    success: bool,
)
    requires
        frame.get("type"@) == Some(JsonView::Text("response"@)),
        frame.get("id"@) == Some(JsonView::Text(turn.prompt_id)),
        frame.get("command"@) == Some(JsonView::Text(command)),
        frame.get("success"@) == Some(JsonView::Bool(success)),
        command != "prompt"@ || !success,
    ensures
        ({
            let (next, left) = run::spec_after_wait(
                turn,
                ledger,
                Ok(Some(frame)),
                output_limit,
                now,
            );
            &&& left == ledger
            &&& command != "prompt"@ ==> next == Err::<RunView<U>, error::ErrorView>(
                error::protocol_fault("OMP prompt response command mismatch"@),
            )
            &&& command == "prompt"@ ==> (frame.get("error"@) matches Some(JsonView::Text(reason))
                ==> encode_utf8(reason).len() <= 4096 ==> next == Err::<
                RunView<U>,
                error::ErrorView,
            >(error::protocol_fault("OMP prompt failed: "@ + reason)))
            &&& command == "prompt"@ ==> (!(frame.get("error"@) matches Some(JsonView::Text(_)))
                ==> next == Err::<RunView<U>, error::ErrorView>(
                error::protocol_fault("OMP prompt failed: "@ + "unspecified error"@),
            ))
            &&& next is Err
        }),
{
    error::law_errors_are_told_up_to_a_limit(Seq::empty());
    if let Some(JsonView::Text(reason)) = frame.get("error"@) {
        error::law_errors_are_told_up_to_a_limit(reason);
    }
}

/// A response that leaves out its identifier, its command or whether it succeeded ends the turn,
/// whatever it answers.
pub proof fn law_incomplete_responses_fail<U>(
    turn: TurnView<U>,
    ledger: LedgerView,
    frame: JsonView,
    output_limit: usize,
    now: u64,
)
    requires
        frame.get("type"@) == Some(JsonView::Text("response"@)),
    ensures
        ({
            let has_id = frame.get("id"@) matches Some(JsonView::Text(_));
            let has_command = frame.get("command"@) matches Some(JsonView::Text(_));
            let has_success = frame.get("success"@) matches Some(JsonView::Bool(_));
            let (next, left) = run::spec_after_wait(
                turn,
                ledger,
                Ok(Some(frame)),
                output_limit,
                now,
            );
            !has_id || !has_command || !has_success ==> {
                &&& left == ledger
                &&& next == Err::<RunView<U>, error::ErrorView>(
                    error::protocol_fault(
                        if !has_id {
                            "OMP response omitted string id"@
                        } else if !has_command {
                            "OMP response omitted command"@
                        } else {
                            "OMP response omitted success"@
                        },
                    ),
                )
            }
        }),
{
}

/// A turn that is interrupted passes every control over; one that is not refuses a control while
/// 1024 of them wait for their responses.
pub proof fn law_controls_that_are_not_written<U>(
    turn: TurnView<U>,
    ledger: LedgerView,
    control: ControlView,
    now: u64,
)
    requires
        turn.interrupted || ledger.pending.len() >= 1024,
    ensures
        run::spec_after_poll(turn, ledger, Some(control), now) == (
            if turn.interrupted {
                Ok::<RunView<U>, error::ErrorView>(RunView::Poll { turn })
            } else {
                Err(error::protocol_fault("OMP pending control response limit exceeded"@))
            },
            ledger,
        ),
{
}

/// The result of this turn's prompt that no agent was called shows what commands printed as the answer
/// and brings the turn to rest; any other result changes nothing.
pub proof fn law_prompt_result_without_agent_is_the_answer<U>(
    turn: TurnView<U>,
    ledger: LedgerView,
    frame: JsonView,
    output_limit: usize,
    now: u64,
)
    requires
        frame.get("type"@) == Some(JsonView::Text("prompt_result"@)),
    ensures
        run::spec_after_wait(turn, ledger, Ok(Some(frame)), output_limit, now) == (
            Ok::<RunView<U>, error::ErrorView>(
                if frame.get("id"@) == Some(JsonView::Text(turn.prompt_id)) && frame.get(
                    "agentInvoked"@,
                ) == Some(JsonView::Bool(false)) {
                    RunView::Output {
                        turn: TurnView {
                            terminal_seen: true,
                            pending_output: Seq::empty(),
                            ..turn
                        },
                        output: turn.pending_output,
                        whole: true,
                        then: AfterOutputView::Settle,
                    }
                } else {
                    RunView::Poll { turn }
                },
            ),
            ledger,
        ),
{
    lemma_kinds_differ();
}

/// Once the answer of commands is shown, progress is noted and nothing else changes.
pub proof fn law_shown_answer_is_progress<U>(turn: TurnView<U>, now: u64)
    ensures
        run::spec_after_output(turn, AfterOutputView::Settle, now) == (RunView::<U>::Poll {
            turn: TurnView { last_progress: now, ..turn },
        }),
{
}

/// The terminal end of this turn's agent makes the turn ask for the state of the runtime, once and
/// under a fresh number; an end that is not terminal is progress; and a terminal end while the
/// question is open changes nothing.
pub proof fn law_terminal_end_asks_for_the_state<U>(
    turn: TurnView<U>,
    ledger: LedgerView,
    frame: JsonView,
    output_limit: usize,
    now: u64,
    terminal: bool,
)
    requires
        frame.get("type"@) == Some(JsonView::Text("agent_end"@)),
        frame.get("isTerminal"@) == Some(JsonView::Bool(terminal)),
        turn.agent_started,
    ensures
        ({
            let (next, left) = run::spec_after_wait(
                turn,
                ledger,
                Ok(Some(frame)),
                output_limit,
                now,
            );
            if !terminal {
                next == Ok::<RunView<U>, error::ErrorView>(
                    RunView::Poll { turn: TurnView { last_progress: now, ..turn } },
                ) && left == ledger
            } else if turn.terminal_check is Some {
                next == Ok::<RunView<U>, error::ErrorView>(RunView::Poll { turn }) && left
                    == ledger
            } else {
                &&& next matches Ok(RunView::Write {
                    turn: kept,
                    command,
                    sent: SentView::TerminalCheck { id },
                    after: AfterWriteView::Poll,
                })
                &&& kept == turn
                &&& command.get("id"@) == Some(JsonView::Text(id))
                &&& command.get("type"@) == Some(JsonView::Text("get_state"@))
                &&& id == ledger::spec_command_id("get_state"@, ledger.next_id)
                &&& left.pending == ledger.pending
                &&& ledger.next_id < u64::MAX ==> left.next_id == ledger.next_id + 1
            }
        }),
{
    lemma_kinds_differ();
    if terminal && turn.terminal_check is None {
        lemma_bare_command(
            ledger::spec_command_id("get_state"@, ledger.next_id),
            "get_state"@,
        );
    }
}

/// An end that does not say whether it is terminal ends the turn.
pub proof fn law_unclear_end_fails<U>(
    turn: TurnView<U>,
    ledger: LedgerView,
    frame: JsonView,
    output_limit: usize,
    now: u64,
)
    requires
        frame.get("type"@) == Some(JsonView::Text("agent_end"@)),
        !(frame.get("isTerminal"@) matches Some(JsonView::Bool(_))),
    ensures
        run::spec_after_wait(turn, ledger, Ok(Some(frame)), output_limit, now) == (
            Err::<RunView<U>, error::ErrorView>(
                error::protocol_fault("OMP agent_end omitted boolean isTerminal"@),
            ),
            ledger,
        ),
{
    lemma_kinds_differ();
}

/// The answer to the question for the state closes it. It brings the turn to rest just if the runtime
/// says that it does not stream; an answer that fails, has another name or leaves this out ends the
/// turn.
pub proof fn law_state_answer_decides_rest<U>(
    turn: TurnView<U>,
    ledger: LedgerView,
    frame: JsonView,
    output_limit: usize,
    now: u64,
    id: Seq<char>,
    since: u64,
    command: Seq<char>,
    success: bool,
)
    requires
        turn.terminal_check == Some((id, since)),
        id != turn.prompt_id,
        frame.get("type"@) == Some(JsonView::Text("response"@)),
        frame.get("id"@) == Some(JsonView::Text(id)),
        frame.get("command"@) == Some(JsonView::Text(command)),
        frame.get("success"@) == Some(JsonView::Bool(success)),
    ensures
        ({
            let streaming = match frame.get("data"@) {
                Some(data) => data.get("isStreaming"@),
                None => None,
            };
            let (next, left) = run::spec_after_wait(
                turn,
                ledger,
                Ok(Some(frame)),
                output_limit,
                now,
            );
            &&& left == ledger
            &&& if command != "get_state"@ || !success {
                next == Err::<RunView<U>, error::ErrorView>(
                    error::protocol_fault("OMP terminal state check failed or mismatched"@),
                )
            } else if streaming == Some(JsonView::Bool(false)) {
                next == Ok::<RunView<U>, error::ErrorView>(
                    RunView::Poll {
                        turn: TurnView {
                            terminal_check: None,
                            terminal_seen: true,
                            last_progress: now,
                            ..turn
                        },
                    },
                )
            } else if streaming == Some(JsonView::Bool(true)) {
                next == Ok::<RunView<U>, error::ErrorView>(
                    RunView::Poll {
                        turn: TurnView { terminal_check: None, terminal_seen: false, ..turn },
                    },
                )
            } else {
                next == Err::<RunView<U>, error::ErrorView>(
                    error::protocol_fault("OMP terminal state omitted isStreaming"@),
                )
            }
        }),
{
}

/// The response to a control takes it off the ledger and leaves the turn as it was. It ends the turn
/// if it has another name than the control, or if the control is one of this turn and failed; a
/// control of this turn that succeeded is progress.
pub proof fn law_control_response_settles_the_control<U>(
    turn: TurnView<U>,
    ledger: LedgerView,
    frame: JsonView,
    output_limit: usize,
    now: u64,
    id: Seq<char>,
    kind: ControlKind,
    issued: u64,
    command: Seq<char>,
    success: bool,
)
    requires
        run::identified(turn),
        ledger.identified(),
        ledger.pending.dom().contains(id),
        ledger.pending[id] == (kind, issued),
        frame.get("type"@) == Some(JsonView::Text("response"@)),
        frame.get("id"@) == Some(JsonView::Text(id)),
        frame.get("command"@) == Some(JsonView::Text(command)),
        frame.get("success"@) == Some(JsonView::Bool(success)),
    ensures
        ({
            let name = match kind {
                ControlKind::Steer => "steer"@,
                ControlKind::Abort => "abort"@,
            };
            let (next, left) = run::spec_after_wait(
                turn,
                ledger,
                Ok(Some(frame)),
                output_limit,
                now,
            );
            &&& left.next_id == ledger.next_id
            &&& left.pending == ledger.pending.remove(id)
            &&& next == if command != name || (issued == turn.sequence && !success) {
                Err::<RunView<U>, error::ErrorView>(
                    error::protocol_fault("OMP "@ + name + " response failed or mismatched"@),
                )
            } else if issued == turn.sequence {
                Ok(RunView::Poll { turn: TurnView { last_progress: now, ..turn } })
            } else {
                Ok(RunView::Poll { turn })
            }
        }),
{
    run::lemma_controls_are_told_apart(turn, ledger, id);
}

// ---------------------------------------------------------------------------
// Commands
// ---------------------------------------------------------------------------

/// What a command without arguments says.
proof fn lemma_bare_command(id: Seq<char>, kind: Seq<char>)
    ensures
        turn::bare_command(id, kind).get("id"@) == Some(JsonView::Text(id)),
        turn::bare_command(id, kind).get("type"@) == Some(JsonView::Text(kind)),
{
    reveal_strlit("id");
    reveal_strlit("type");
    assert("id"@.len() == 2);
    assert("type"@.len() == 4);
    let members = turn::bare_command(id, kind)->Object_0;
    reveal_with_fuel(json::lookup, 3);
    assert(members.skip(1)[0] == members[1]);
}

/// Whether a document carries an image.
pub open spec fn carries_image(document: JsonView, image: prompt::ImageView) -> bool {
    &&& document.get("type"@) == Some(JsonView::Text("image"@))
    &&& document.get("data"@) == Some(JsonView::Text(image.data))
    &&& document.get("mimeType"@) == Some(JsonView::Text(image.mime_type))
}

/// Whether a command has an identifier, a name and a message, and carries exactly some images, in
/// order; without any it has no list of them.
pub open spec fn carries(
    command: JsonView,
    id: Seq<char>,
    name: Seq<char>,
    message: Seq<char>,
    images: Seq<prompt::ImageView>,
) -> bool {
    &&& command.get("id"@) == Some(JsonView::Text(id))
    &&& command.get("type"@) == Some(JsonView::Text(name))
    &&& command.get("message"@) == Some(JsonView::Text(message))
    &&& match command.get("images"@) {
        None => images.len() == 0,
        Some(JsonView::List(documents)) => {
            &&& images.len() > 0
            &&& documents.len() == images.len()
            &&& forall|i: int|
                0 <= i < images.len() ==> carries_image(#[trigger] documents[i], images[i])
        },
        Some(_) => false,
    }
}

proof fn lemma_image_document(image: prompt::ImageView)
    ensures
        carries_image(prompt::image_document(image), image),
{
    reveal_strlit("type");
    reveal_strlit("data");
    reveal_strlit("mimeType");
    assert("type"@[0] == 't');
    assert("data"@[0] == 'd');
    assert("mimeType"@[0] == 'm');
    let members = prompt::image_document(image)->Object_0;
    reveal_with_fuel(json::lookup, 4);
    assert(members.skip(1)[0] == members[1]);
    assert(members.skip(1).skip(1)[0] == members[2]);
}

proof fn lemma_message_command(
    id: Seq<char>,
    kind: Seq<char>,
    message: Seq<char>,
    images: Seq<prompt::ImageView>,
)
    ensures
        carries(turn::message_command(id, kind, message, images), id, kind, message, images),
{
    reveal_strlit("id");
    reveal_strlit("type");
    reveal_strlit("message");
    reveal_strlit("images");
    assert("id"@.len() == 2);
    assert("type"@.len() == 4);
    assert("message"@.len() == 7);
    assert("images"@.len() == 6);
    let command = turn::message_command(id, kind, message, images);
    let members = command->Object_0;
    reveal_with_fuel(json::lookup, 5);
    assert(members.skip(1)[0] == members[1]);
    assert(members.skip(1).skip(1)[0] == members[2]);
    assert(members.skip(1).skip(1).skip(1).len() == members.len() - 3);
    if images.len() > 0 {
        assert(members.skip(1).skip(1).skip(1)[0] == members[3]);
        let documents = images.map_values(|v: prompt::ImageView| prompt::image_document(v));
        assert forall|i: int| 0 <= i < images.len() implies carries_image(
            #[trigger] documents[i],
            images[i],
        ) by {
            lemma_image_document(images[i]);
        }
    }
}

/// The prompt of a turn carries the message and all the images of what the user sent, in order, under
/// a fresh number that stands for the turn; and it is refused just if that content is.
pub proof fn law_prompt_carries_its_content<U>(
    ledger: LedgerView,
    input: Seq<prompt::InputView>,
    now: u64,
)
    ensures
        match (prompt::spec_prompt_content(input), turn::spec_open_turn(ledger, input)) {
            (Ok((message, images)), Ok(opening)) => {
                &&& carries(opening.command, opening.prompt_id, "prompt"@, message, images)
                &&& opening.sequence == ledger.next_id
                &&& opening.prompt_id == ledger::spec_command_id("prompt"@, ledger.next_id)
                &&& turn::spec_begin::<U>(opening, now).prompt_id == opening.prompt_id
                &&& turn::spec_begin::<U>(opening, now).sequence == opening.sequence
            },
            (Err(e), Err(fault)) => e == fault,
            _ => false,
        },
{
    if let Ok((message, images)) = prompt::spec_prompt_content(input) {
        lemma_message_command(
            ledger::spec_command_id("prompt"@, ledger.next_id),
            "prompt"@,
            message,
            images,
        );
    }
}

/// A steer of a turn that is not interrupted, while there is room for it, is written with the message
/// and all the images of what the user sent, in order, under a fresh number; it is refused just if
/// that content is.
pub proof fn law_steer_carries_its_content<U>(
    turn: TurnView<U>,
    ledger: LedgerView,
    input: Seq<prompt::InputView>,
    now: u64,
)
    requires
        !turn.interrupted,
        ledger.pending.len() < 1024,
    ensures
        ({
            let (next, left) = run::spec_after_poll(
                turn,
                ledger,
                Some(ControlView::Steer(input)),
                now,
            );
            match prompt::spec_prompt_content(input) {
                Err(e) => next == Err::<RunView<U>, error::ErrorView>(e) && left == ledger,
                Ok((message, images)) => {
                    &&& next matches Ok(RunView::Write {
                        turn: kept,
                        command,
                        sent: SentView::Steer { id },
                        after: AfterWriteView::Poll,
                    })
                    &&& kept == turn
                    &&& id == ledger::spec_command_id("steer"@, ledger.next_id)
                    &&& carries(command, id, "steer"@, message, images)
                    &&& left.pending == ledger.pending
                    &&& ledger.next_id < u64::MAX ==> left.next_id == ledger.next_id + 1
                },
            }
        }),
{
    if let Ok((message, images)) = prompt::spec_prompt_content(input) {
        lemma_message_command(
            ledger::spec_command_id("steer"@, ledger.next_id),
            "steer"@,
            message,
            images,
        );
    }
}

/// An interrupt of a turn that is not interrupted, while there is room for it, is written as an abort
/// under a fresh number, and interrupts the turn.
pub proof fn law_interrupt_is_written_as_an_abort<U>(
    turn: TurnView<U>,
    ledger: LedgerView,
    now: u64,
)
    requires
        !turn.interrupted,
        ledger.pending.len() < 1024,
    ensures
        ({
            let (next, left) = run::spec_after_poll(
                turn,
                ledger,
                Some(ControlView::Interrupt),
                now,
            );
            &&& next matches Ok(RunView::Write {
                turn: kept,
                command,
                sent: SentView::Abort { id },
                after: AfterWriteView::Poll,
            })
            &&& kept == TurnView { interrupted: true, ..turn }
            &&& id == ledger::spec_command_id("abort"@, ledger.next_id)
            &&& command.get("id"@) == Some(JsonView::Text(id))
            &&& command.get("type"@) == Some(JsonView::Text("abort"@))
            &&& left.pending == ledger.pending
            &&& ledger.next_id < u64::MAX ==> left.next_id == ledger.next_id + 1
        }),
{
    lemma_bare_command(ledger::spec_command_id("abort"@, ledger.next_id), "abort"@);
}

/// The first error of a turn that is not interrupted is met with an abort, as an interrupt is, and is
/// kept.
pub proof fn law_first_error_is_met_with_an_abort<U>(
    turn: TurnView<U>,
    ledger: LedgerView,
    message: Seq<char>,
    rest: Seq<EventView<U>>,
    now: u64,
)
    requires
        !turn.interrupted,
        turn.turn_error is None,
    ensures
        ({
            let events = seq![EventView::<U>::Error(message)] + rest;
            let (step, left) = run::spec_next_event(turn, ledger, events, now);
            &&& step matches RunView::Write {
                turn: kept,
                command,
                sent: SentView::Abort { id },
                after: AfterWriteView::Events(later),
            }
            &&& kept == TurnView { interrupted: true, turn_error: Some(message), ..turn }
            &&& id == ledger::spec_command_id("abort"@, ledger.next_id)
            &&& command.get("id"@) == Some(JsonView::Text(id))
            &&& command.get("type"@) == Some(JsonView::Text("abort"@))
            &&& later == rest
            &&& left.pending == ledger.pending
        }),
{
    lemma_bare_command(ledger::spec_command_id("abort"@, ledger.next_id), "abort"@);
    let events = seq![EventView::<U>::Error(message)] + rest;
    assert(events[0] == EventView::<U>::Error(message));
    assert(events.skip(1) =~= rest);
}

/// A control that was written waits for its response under its own identifier, as one of its kind and
/// of this turn, beside those that waited before. An abort starts its grace; the question for the
/// state is open from then on; a denial is progress.
pub proof fn law_written_commands_are_noted<U>(
    turn: TurnView<U>,
    ledger: LedgerView,
    id: Seq<char>,
    now: u64,
)
    ensures
        run::spec_after_write(
            turn,
            ledger,
            SentView::Steer { id },
            AfterWriteView::Poll,
            now,
        ) == (
            RunView::<U>::Poll { turn },
            LedgerView {
                pending: ledger.pending.insert(id, (ControlKind::Steer, turn.sequence)),
                ..ledger
            },
        ),
        run::spec_after_write(
            turn,
            ledger,
            SentView::Abort { id },
            AfterWriteView::Poll,
            now,
        ) == (
            RunView::<U>::Poll { turn: TurnView { abort_since: Some(now), ..turn } },
            LedgerView {
                pending: ledger.pending.insert(id, (ControlKind::Abort, turn.sequence)),
                ..ledger
            },
        ),
        run::spec_after_write(
            turn,
            ledger,
            SentView::TerminalCheck { id },
            AfterWriteView::Poll,
            now,
        ) == (
            RunView::<U>::Poll { turn: TurnView { terminal_check: Some((id, now)), ..turn } },
            ledger,
        ),
        run::spec_after_write(turn, ledger, SentView::Denial, AfterWriteView::Poll, now) == (
            RunView::<U>::Poll { turn: TurnView { last_progress: now, ..turn } },
            ledger,
        ),
{
}

/// A new turn has nothing behind it: it is neither acknowledged nor started, at rest, interrupted or
/// failed, and its clocks start when its prompt was written.
pub proof fn law_a_turn_begins_afresh<U>(opening: turn::OpeningView, now: u64)
    ensures
        ({
            let turn = turn::spec_begin::<U>(opening, now);
            &&& turn.started == now && turn.last_progress == now
            &&& !turn.prompt_acknowledged && !turn.agent_started && !turn.terminal_seen
            &&& !turn.interrupted && turn.abort_since is None
            &&& turn.terminal_check is None && turn.turn_error is None && turn.usage is None
            &&& turn.pending_output.len() == 0
        }),
{
}

// ---------------------------------------------------------------------------
// The clock and the end
// ---------------------------------------------------------------------------

/// With no control left, a turn waits for a frame just if it has not settled and none of its times
/// has run out: five seconds for an abort, thirty for the acknowledgement of the prompt and for the
/// answer to the question for the state, thirty minutes without progress. A settled turn ends
/// whatever the time, and an abort that ran out comes before the other times.
pub proof fn law_a_turn_waits_while_its_times_last<U>(
    turn: TurnView<U>,
    ledger: LedgerView,
    now: u64,
)
    ensures
        ({
            let (next, left) = run::spec_after_poll(turn, ledger, None, now);
            let at_rest = turn.terminal_seen && (turn.prompt_acknowledged || turn.interrupted);
            let abort_over = turn.interrupted && turn.abort_since is Some && now
                - turn.abort_since->Some_0 >= 5_000_000_000;
            let unacknowledged = !turn.prompt_acknowledged && now - turn.started
                >= 30_000_000_000;
            let unanswered = turn.terminal_check is Some && now - turn.terminal_check->Some_0.1
                >= 30_000_000_000;
            let idle = now - turn.last_progress >= 1_800_000_000_000;
            &&& left == ledger
            &&& next == if at_rest {
                match turn.turn_error {
                    Some(message) => Err::<RunView<U>, error::ErrorView>(
                        error::protocol_fault(message),
                    ),
                    None => Ok(RunView::Announce { turn }),
                }
            } else if abort_over {
                Ok(RunView::Stop { turn })
            } else if unacknowledged {
                Err(error::protocol_fault("OMP prompt acknowledgement timed out"@))
            } else if unanswered {
                Err(error::protocol_fault("OMP terminal state check timed out"@))
            } else if idle {
                Err(
                    error::protocol_fault(
                        "OMP turn made no transport progress before watchdog expiry"@,
                    ),
                )
            } else {
                Ok(RunView::Receive { turn })
            }
        }),
{
}

/// A turn that met no error ends with whether it was interrupted and with the usage that it kept; one
/// that met an error ends with that error.
pub proof fn law_a_turn_ends_with_what_it_kept<U>(turn: TurnView<U>)
    ensures
        turn.turn_error is None ==> turn::spec_conclude(turn) == Ok::<
            TurnOutcome<U>,
            error::ErrorView,
        >(TurnOutcome { interrupted: turn.interrupted, usage: turn.usage }),
        turn.turn_error matches Some(message) ==> turn::spec_conclude(turn) == Err::<
            TurnOutcome<U>,
            error::ErrorView,
        >(error::ErrorView::Protocol("OMP protocol error: "@ + message)),
{
}

/// Only a usage event changes the usage that a turn keeps: no frame, no control and no report of a
/// written command does.
pub proof fn law_only_usage_events_change_usage<U>(
    turn: TurnView<U>,
    ledger: LedgerView,
    frame: JsonView,
    output_limit: usize,
    control: ControlView,
    sent: SentView,
    event: EventView<U>,
    now: u64,
)
    ensures
        turn::spec_on_frame(turn, ledger, frame, output_limit).turn.usage == turn.usage,
        turn::spec_on_control(turn, ledger, control).turn.usage == turn.usage,
        turn::spec_sent(turn, ledger, sent, now).0.usage == turn.usage,
        turn::spec_on_event(turn, ledger, event).turn.usage == match event {
            EventView::Usage(usage) => Some(usage),
            _ => turn.usage,
        },
{
}

/// No frame, control, event or report changes which prompt a turn has or when it started.
pub proof fn law_a_turn_keeps_its_prompt<U>(
    turn: TurnView<U>,
    ledger: LedgerView,
    frame: JsonView,
    output_limit: usize,
    control: ControlView,
    sent: SentView,
    event: EventView<U>,
    now: u64,
)
    ensures
        ({
            let a = turn::spec_on_frame(turn, ledger, frame, output_limit).turn;
            let b = turn::spec_on_control(turn, ledger, control).turn;
            let c = turn::spec_sent(turn, ledger, sent, now).0;
            let d = turn::spec_on_event(turn, ledger, event).turn;
            &&& a.prompt_id == turn.prompt_id && a.sequence == turn.sequence && a.started
                == turn.started
            &&& b.prompt_id == turn.prompt_id && b.sequence == turn.sequence && b.started
                == turn.started
            &&& c.prompt_id == turn.prompt_id && c.sequence == turn.sequence && c.started
                == turn.started
            &&& d.prompt_id == turn.prompt_id && d.sequence == turn.sequence && d.started
                == turn.started
        }),
{
}

// ---------------------------------------------------------------------------
// The events of a frame, from the first to the last
// ---------------------------------------------------------------------------

/// What comes of all the events of a frame once every step for them is carried out.
pub struct Played<U> {
    pub shown: Seq<EventView<U>>,
    pub aborts: nat,
    pub turn: TurnView<U>,
    pub ledger: LedgerView,
}

/// Carries out the steps for the events of a frame: what is to be shown is shown, what is to be
/// written is written, until the next question for a control.
pub open spec fn play<U>(
    turn: TurnView<U>,
    ledger: LedgerView,
    events: Seq<EventView<U>>,
    now: u64,
) -> Played<U>
    decreases events.len(),
{
    let (step, left) = run::spec_next_event(turn, ledger, events, now);
    match step {
        RunView::Show { turn: kept, rest } => if rest.len() < events.len() {
            let later = play(kept, left, rest, now);
            Played {
                shown: seq![events[events.len() - rest.len() - 1]] + later.shown,
                ..later
            }
        } else {
            Played { shown: seq![], aborts: 0, turn: kept, ledger: left }
        },
        RunView::Write { turn: kept, command, sent, after: AfterWriteView::Events(rest) } => if rest.len()
            < events.len() {
            let (noted, recorded) = turn::spec_sent(kept, left, sent, now);
            let later = play(noted, recorded, rest, now);
            Played {
                aborts: later.aborts + if sent is Abort {
                    1nat
                } else {
                    0nat
                },
                ..later
            }
        } else {
            Played { shown: seq![], aborts: 0, turn: kept, ledger: left }
        },
        RunView::Poll { turn: kept } => Played {
            shown: seq![],
            aborts: 0,
            turn: kept,
            ledger: left,
        },
        _ => Played { shown: seq![], aborts: 0, turn, ledger: left },
    }
}

/// Whether an event is no error.
pub open spec fn no_error<U>() -> spec_fn(EventView<U>) -> bool {
    |event: EventView<U>| !(event is Error)
}

/// Whether there is an event of a frame that is an error.
pub open spec fn has_error<U>(events: Seq<EventView<U>>) -> bool {
    exists|i: int| 0 <= i < events.len() && (#[trigger] events[i]) is Error
}

/// Whether the usage that is kept in the end is that of the last usage event, or the one before where
/// there is none.
pub open spec fn keeps_last_usage<U>(
    before: Option<U>,
    events: Seq<EventView<U>>,
    after: Option<U>,
) -> bool {
    &&& (forall|j: int| 0 <= j < events.len() ==> !((#[trigger] events[j]) is Usage)) ==> after
        == before
    &&& forall|i: int|
        0 <= i < events.len() && (#[trigger] events[i]) is Usage && (forall|j: int|
            i < j < events.len() ==> !((#[trigger] events[j]) is Usage)) ==> after == Some(
            events[i]->Usage_0,
        )
}

/// Whether the error that is kept in the end is the one before, or the first among the events where
/// there was none before.
pub open spec fn keeps_first_error<U>(
    before: Option<Seq<char>>,
    events: Seq<EventView<U>>,
    after: Option<Seq<char>>,
) -> bool {
    &&& before is Some || !has_error(events) ==> after == before
    &&& forall|i: int|
        before is None && 0 <= i < events.len() && (#[trigger] events[i]) is Error && (forall|j: int|
            0 <= j < i ==> !((#[trigger] events[j]) is Error)) ==> after == Some(
            events[i]->Error_0,
        )
}

/// Playing skips an error of an interrupted turn.
proof fn lemma_play_withheld<U>(
    turn: TurnView<U>,
    ledger: LedgerView,
    events: Seq<EventView<U>>,
    now: u64,
)
    requires
        events.len() > 0,
        turn.interrupted,
        events[0] is Error,
    ensures
        ({
            let kept = TurnView {
                turn_error: match turn.turn_error {
                    Some(first) => Some(first),
                    None => Some(events[0]->Error_0),
                },
                ..turn
            };
            play(turn, ledger, events, now) == play(kept, ledger, events.skip(1), now)
        }),
{
    let rest = events.skip(1);
    let kept = turn::spec_on_event(turn, ledger, events[0]).turn;
    run::law_events_are_shown_in_order(kept, ledger, rest, now);
    let n = run::withheld(kept, rest);
    let (step, left) = run::spec_next_event(kept, ledger, rest, now);
    assert(run::spec_next_event(turn, ledger, events, now) == (step, left));
    if n < rest.len() {
        let behind = rest.skip(n + 1);
        assert(behind.len() == rest.len() - n - 1);
        assert(events[events.len() - behind.len() - 1] == rest[rest.len() - behind.len() - 1]);
    }
}

/// Of the events of a frame all are shown that are no errors, in their order, whether or not the turn
/// is interrupted. The last usage among them is kept, and so is the first error of the turn. One
/// abort is written, and the turn interrupted, just if there is an error and the turn was not
/// interrupted before. Nothing else of the turn changes but that progress is noted.
pub proof fn law_all_events_but_errors_are_shown<U>(
    turn: TurnView<U>,
    ledger: LedgerView,
    events: Seq<EventView<U>>,
    now: u64,
)
    ensures
        ({
            let played = play(turn, ledger, events, now);
            let aborted = has_error(events) && !turn.interrupted;
            &&& played.shown == events.filter(no_error())
            &&& played.aborts == if aborted {
                1nat
            } else {
                0nat
            }
            &&& keeps_last_usage(turn.usage, events, played.turn.usage)
            &&& played.turn.interrupted == (turn.interrupted || has_error(events))
            &&& keeps_first_error(turn.turn_error, events, played.turn.turn_error)
            &&& played.turn.abort_since == if aborted {
                Some(now)
            } else {
                turn.abort_since
            }
            &&& played.turn == TurnView {
                last_progress: now,
                interrupted: played.turn.interrupted,
                abort_since: played.turn.abort_since,
                turn_error: played.turn.turn_error,
                usage: played.turn.usage,
                ..turn
            }
        }),
    decreases events.len(),
{
    reveal(Seq::filter);
    if events.len() == 0 {
        assert(events.filter(no_error()) =~= seq![]);
    } else {
        let first = events[0];
        let rest = events.skip(1);
        assert(events =~= seq![first] + rest);
        Seq::filter_distributes_over_add(seq![first], rest, no_error());
        assert(seq![first].drop_last() =~= Seq::<EventView<U>>::empty());
        assert(Seq::<EventView<U>>::empty().filter(no_error()) =~= seq![]);
        let taken = turn::spec_on_event(turn, ledger, first);
        assert(has_error(events) == (first is Error || has_error(rest))) by {
            if has_error(rest) {
                let i = choose|i: int| 0 <= i < rest.len() && (#[trigger] rest[i]) is Error;
                assert(events[i + 1] is Error);
            }
            if has_error(events) && !(first is Error) {
                let i = choose|i: int| 0 <= i < events.len() && (#[trigger] events[i]) is Error;
                assert(rest[i - 1] is Error);
            }
        }
        assert forall|i: int|
            0 < i < events.len() && (forall|j: int|
                0 <= j < i ==> !((#[trigger] events[j]) is Error)) implies (forall|j: int|
            0 <= j < i - 1 ==> !((#[trigger] rest[j]) is Error)) && rest[i - 1]
            == #[trigger] events[i] by {
            assert forall|j: int| 0 <= j < i - 1 implies !((#[trigger] rest[j]) is Error) by {
                assert(rest[j] == events[j + 1]);
            }
        }
        if first is Error && turn.interrupted {
            lemma_play_withheld(turn, ledger, events, now);
            law_all_events_but_errors_are_shown(taken.turn, ledger, rest, now);
            assert(seq![first].filter(no_error()) =~= seq![]);
            lemma_last_usage(turn.usage, events, play(turn, ledger, events, now).turn.usage);
            assert(events.filter(no_error()) =~= rest.filter(no_error()));
        } else if first is Error {
            let id = ledger::spec_command_id("abort"@, ledger.next_id);
            let (noted, recorded) = turn::spec_sent(
                taken.turn,
                taken.ledger,
                SentView::Abort { id },
                now,
            );
            law_all_events_but_errors_are_shown(noted, recorded, rest, now);
            assert(seq![first].filter(no_error()) =~= seq![]);
            lemma_last_usage(turn.usage, events, play(turn, ledger, events, now).turn.usage);
            assert(events.filter(no_error()) =~= rest.filter(no_error()));
        } else {
            law_all_events_but_errors_are_shown(taken.turn, taken.ledger, rest, now);
            assert(seq![first].filter(no_error()) =~= seq![first]);
            lemma_last_usage(turn.usage, events, play(turn, ledger, events, now).turn.usage);
        }
    }
}

/// What holds of the usage from the second event on holds of all, the first taken into account.
proof fn lemma_last_usage<U>(before: Option<U>, events: Seq<EventView<U>>, after: Option<U>)
    requires
        events.len() > 0,
        keeps_last_usage(
            match events[0] {
                EventView::Usage(usage) => Some(usage),
                _ => before,
            },
            events.skip(1),
            after,
        ),
    ensures
        keeps_last_usage(before, events, after),
{
    let rest = events.skip(1);
    if forall|j: int| 0 <= j < events.len() ==> !((#[trigger] events[j]) is Usage) {
        assert(!(events[0] is Usage));
        assert forall|j: int| 0 <= j < rest.len() implies !((#[trigger] rest[j]) is Usage) by {
            assert(rest[j] == events[j + 1]);
        }
    }
    assert forall|i: int|
        0 <= i < events.len() && (#[trigger] events[i]) is Usage && (forall|j: int|
            i < j < events.len() ==> !((#[trigger] events[j]) is Usage)) implies after == Some(
        events[i]->Usage_0,
    ) by {
        if i == 0 {
            assert forall|j: int| 0 <= j < rest.len() implies !((#[trigger] rest[j]) is Usage) by {
                assert(rest[j] == events[j + 1]);
            }
        } else {
            assert(rest[i - 1] == events[i]);
            assert forall|j: int| i - 1 < j < rest.len() implies !((#[trigger] rest[j]) is Usage) by {
                assert(rest[j] == events[j + 1]);
            }
        }
    }
}

} // verus!
