//! What the requests of the runtime are answered and what ends the wait for a response, told frame by
//! frame.

use vstd::prelude::*;
use vstd::utf8::*;

use crate::error;
use crate::error::HarnessKind;
use crate::json::JsonView;
use crate::ledger::{ControlKind, LedgerView};
use crate::protocol;
use crate::run;
use crate::run::{AfterWriteView, RunView};
use crate::session;
use crate::session::{AwaitedView, ReceivedView, WaitStepView};
use crate::text;
use crate::text_laws;
use crate::turn::{SentView, TurnView};
use crate::turn_laws;

verus! {

// ---------------------------------------------------------------------------
// Requests of the runtime
// ---------------------------------------------------------------------------

proof fn lemma_methods_differ()
    ensures
        "select"@ != "cancel"@ && "select"@ != "notify"@,
        "editor"@ != "cancel"@ && "editor"@ != "notify"@,
        "select"@.len() == 6 && "editor"@.len() == 6,
        "confirm"@.len() == 7 && "input"@.len() == 5,
        "cancel"@.len() == 6 && "notify"@.len() == 6,
        "setStatus"@.len() == 9 && "setWidget"@.len() == 9 && "setTitle"@.len() == 8,
        "set_editor_text"@.len() == 15 && "open_url"@.len() == 8,
{
    reveal_strlit("select");
    reveal_strlit("editor");
    reveal_strlit("confirm");
    reveal_strlit("input");
    reveal_strlit("cancel");
    reveal_strlit("notify");
    reveal_strlit("setStatus");
    reveal_strlit("setWidget");
    reveal_strlit("setTitle");
    reveal_strlit("set_editor_text");
    reveal_strlit("open_url");
    assert("select"@[0] == 's');
    assert("editor"@[0] == 'e');
    assert("cancel"@[0] == 'c');
    assert("notify"@[0] == 'n');
}

proof fn lemma_members_differ()
    ensures
        "id"@.len() == 2 && "type"@.len() == 4 && "error"@.len() == 5,
        "result"@.len() == 6 && "isError"@.len() == 7 && "cancelled"@.len() == 9,
        "content"@.len() == 7 && "text"@.len() == 4 && "text"@ != "type"@,
        "content"@ != "isError"@,
{
    reveal_strlit("id");
    reveal_strlit("type");
    reveal_strlit("error");
    reveal_strlit("result");
    reveal_strlit("isError");
    reveal_strlit("cancelled");
    reveal_strlit("content");
    reveal_strlit("text");
    assert("text"@[1] == 'e');
    assert("type"@[1] == 'y');
    assert("content"@[0] == 'c');
    assert("isError"@[0] == 'i');
}

/// A dialog that the runtime wants to open is answered as cancelled, under the identifier of the
/// request.
pub proof fn law_dialogs_are_cancelled(frame: JsonView, id: Seq<char>, method: Seq<char>)
    requires
        frame.get("type"@) == Some(JsonView::Text("extension_ui_request"@)),
        frame.get("method"@) == Some(JsonView::Text(method)),
        method == "select"@ || method == "confirm"@ || method == "input"@ || method == "editor"@,
        frame.get("id"@) == Some(JsonView::Text(id)),
    ensures
        protocol::spec_deny_callback(frame) matches Ok(Some(reply)) && {
            &&& reply.get("type"@) == Some(JsonView::Text("extension_ui_response"@))
            &&& reply.get("id"@) == Some(JsonView::Text(id))
            &&& reply.get("cancelled"@) == Some(JsonView::Bool(true))
        },
{
    lemma_methods_differ();
    lemma_members_differ();
    let members = protocol::dialog_denial(id)->Object_0;
    text_laws::law_first_member_counts(members, "type"@, 0);
    text_laws::law_first_member_counts(members, "id"@, 1);
    text_laws::law_first_member_counts(members, "cancelled"@, 2);
}

/// What only presents something needs no answer and gets none, with or without an identifier.
pub proof fn law_presentations_are_passed_over(frame: JsonView, method: Seq<char>)
    requires
        frame.get("type"@) == Some(JsonView::Text("extension_ui_request"@)),
        frame.get("method"@) == Some(JsonView::Text(method)),
        method == "cancel"@ || method == "notify"@ || method == "setStatus"@ || method
            == "setWidget"@ || method == "setTitle"@ || method == "set_editor_text"@ || method
            == "open_url"@,
    ensures
        protocol::spec_deny_callback(frame) == Ok::<Option<JsonView>, error::ErrorView>(None),
{
}

/// A request of an extension by any other method, or by none, is an error.
pub proof fn law_other_extension_requests_fail(frame: JsonView)
    requires
        frame.get("type"@) == Some(JsonView::Text("extension_ui_request"@)),
        frame.get("method"@) matches Some(JsonView::Text(method)) ==> {
            &&& method != "select"@ && method != "confirm"@ && method != "input"@
            &&& method != "editor"@ && method != "cancel"@ && method != "notify"@
            &&& method != "setStatus"@ && method != "setWidget"@ && method != "setTitle"@
            &&& method != "set_editor_text"@ && method != "open_url"@
        },
    ensures
        protocol::spec_deny_callback(frame) == Err::<Option<JsonView>, error::ErrorView>(
            error::protocol_fault(
                if frame.get("id"@) matches Some(JsonView::Text(_)) {
                    "unknown OMP extension UI request"@
                } else {
                    "OMP privileged callback omitted string id"@
                },
            ),
        ),
{
}

/// A call of a tool of the host is answered as failed, under the identifier of the call, with a note
/// that says why.
pub proof fn law_host_tools_are_refused(frame: JsonView, id: Seq<char>)
    requires
        frame.get("type"@) == Some(JsonView::Text("host_tool_call"@)),
        frame.get("id"@) == Some(JsonView::Text(id)),
    ensures
        protocol::spec_deny_callback(frame) matches Ok(Some(reply)) && {
            &&& reply.get("type"@) == Some(JsonView::Text("host_tool_result"@))
            &&& reply.get("id"@) == Some(JsonView::Text(id))
            &&& reply.get("isError"@) == Some(JsonView::Bool(true))
            &&& reply.get("result"@) matches Some(result)
            &&& result.get("content"@) matches Some(JsonView::List(notes))
            &&& notes.len() == 1
            &&& notes[0].get("type"@) == Some(JsonView::Text("text"@))
            &&& notes[0].get("text"@) == Some(
                JsonView::Text("Host tools are disabled by centaur-safe"@),
            )
        },
{
    turn_laws::lemma_kinds_differ();
    lemma_members_differ();
    let members = protocol::host_tool_denial(id)->Object_0;
    text_laws::law_first_member_counts(members, "type"@, 0);
    text_laws::law_first_member_counts(members, "id"@, 1);
    text_laws::law_first_member_counts(members, "result"@, 2);
    text_laws::law_first_member_counts(members, "isError"@, 3);
    let result = members[2].1->Object_0;
    text_laws::law_first_member_counts(result, "content"@, 0);
    let note = result[0].1->List_0[0]->Object_0;
    text_laws::law_first_member_counts(note, "type"@, 0);
    text_laws::law_first_member_counts(note, "text"@, 1);
}

/// A request for a URI of the host is answered as failed, under the identifier of the request.
pub proof fn law_host_uris_are_refused(frame: JsonView, id: Seq<char>)
    requires
        frame.get("type"@) == Some(JsonView::Text("host_uri_request"@)),
        frame.get("id"@) == Some(JsonView::Text(id)),
    ensures
        protocol::spec_deny_callback(frame) matches Ok(Some(reply)) && {
            &&& reply.get("type"@) == Some(JsonView::Text("host_uri_result"@))
            &&& reply.get("id"@) == Some(JsonView::Text(id))
            &&& reply.get("isError"@) == Some(JsonView::Bool(true))
            &&& reply.get("error"@) == Some(
                JsonView::Text("Host URIs are disabled by centaur-safe"@),
            )
        },
{
    turn_laws::lemma_kinds_differ();
    lemma_members_differ();
    let members = protocol::host_uri_denial(id)->Object_0;
    text_laws::law_first_member_counts(members, "type"@, 0);
    text_laws::law_first_member_counts(members, "id"@, 1);
    text_laws::law_first_member_counts(members, "isError"@, 2);
    text_laws::law_first_member_counts(members, "error"@, 3);
}

/// That the runtime takes a request back needs no answer.
pub proof fn law_cancellations_are_passed_over(frame: JsonView, id: Seq<char>)
    requires
        frame.get("type"@) == Some(JsonView::Text("host_tool_cancel"@)) || frame.get("type"@)
            == Some(JsonView::Text("host_uri_cancel"@)),
        frame.get("id"@) == Some(JsonView::Text(id)),
    ensures
        protocol::spec_deny_callback(frame) == Ok::<Option<JsonView>, error::ErrorView>(None),
{
    turn_laws::lemma_kinds_differ();
}

/// A request to the host that has no identifier is an error.
pub proof fn law_host_requests_need_an_identifier(frame: JsonView, kind: Seq<char>)
    requires
        frame.get("type"@) == Some(JsonView::Text(kind)),
        kind == "host_tool_call"@ || kind == "host_tool_cancel"@ || kind == "host_uri_request"@
            || kind == "host_uri_cancel"@,
        !(frame.get("id"@) matches Some(JsonView::Text(_))),
    ensures
        protocol::spec_deny_callback(frame) == Err::<Option<JsonView>, error::ErrorView>(
            error::protocol_fault("OMP privileged callback omitted string id"@),
        ),
{
    turn_laws::lemma_kinds_differ();
}

/// Whether a frame asks the host for something.
pub open spec fn asks_the_host(frame: JsonView) -> bool {
    frame.get("type"@) matches Some(JsonView::Text(kind)) && {
        ||| kind == "extension_ui_request"@
        ||| kind == "host_tool_call"@
        ||| kind == "host_tool_cancel"@
        ||| kind == "host_uri_request"@
        ||| kind == "host_uri_cancel"@
    }
}

/// A request to the host is refused alike in a turn and while a response is awaited: the answer is
/// written where there is one, and otherwise passed over; in a turn that is progress.
pub proof fn law_requests_are_refused_everywhere<U>(
    turn: TurnView<U>,
    awaited: AwaitedView,
    ledger: LedgerView,
    frame: JsonView,
    output_limit: usize,
    now: u64,
)
    requires
        asks_the_host(frame),
    ensures
        run::spec_after_wait(turn, ledger, Ok(Some(frame)), output_limit, now) == (
            match protocol::spec_deny_callback(frame) {
                Err(e) => Err::<RunView<U>, error::ErrorView>(e),
                Ok(None) => Ok(RunView::Poll { turn: TurnView { last_progress: now, ..turn } }),
                Ok(Some(reply)) => Ok(
                    RunView::Write {
                        turn,
                        command: reply,
                        sent: SentView::Denial,
                        after: AfterWriteView::Poll,
                    },
                ),
            },
            ledger,
        ),
        session::spec_wait_received(awaited, ledger, ReceivedView::Line(Ok(Some(frame)))) == (
            match protocol::spec_deny_callback(frame) {
                Err(e) => Err::<WaitStepView, error::ErrorView>(e),
                Ok(None) => Ok(WaitStepView::Wait),
                Ok(Some(reply)) => Ok(WaitStepView::Reply(reply)),
            },
            ledger,
        ),
{
    turn_laws::lemma_kinds_differ();
    reveal_strlit("notice");
    assert("notice"@.len() == 6);
}

// ---------------------------------------------------------------------------
// Waiting for a frame
// ---------------------------------------------------------------------------

/// Nothing, or that time ran out, leaves a turn as it was; any other failure of the wait ends it.
pub proof fn law_only_lost_time_is_tolerated<U>(
    turn: TurnView<U>,
    ledger: LedgerView,
    fault: error::ErrorView,
    a: Seq<char>,
    b: Seq<char>,
    output_limit: usize,
    now: u64,
)
    ensures
        run::spec_after_wait(turn, ledger, Ok(None), output_limit, now) == (
            Ok::<RunView<U>, error::ErrorView>(RunView::Poll { turn }),
            ledger,
        ),
        run::spec_after_wait(
            turn,
            ledger,
            Err(error::ErrorView::Protocol(a + "timed out"@ + b)),
            output_limit,
            now,
        ) == (Ok::<RunView<U>, error::ErrorView>(RunView::Poll { turn }), ledger),
        !(fault is Protocol) ==> run::spec_after_wait(
            turn,
            ledger,
            Err(fault),
            output_limit,
            now,
        ) == (Err::<RunView<U>, error::ErrorView>(fault), ledger),
        fault matches error::ErrorView::Protocol(message) ==> (forall|i: int|
            0 <= i <= message.len() - 9 ==> #[trigger] message.subrange(i, i + 9) != "timed out"@)
            ==> run::spec_after_wait(turn, ledger, Err(fault), output_limit, now) == (
            Err::<RunView<U>, error::ErrorView>(fault),
            ledger,
        ),
{
    text_laws::law_occurs(a, "timed out"@, a, b);
    reveal_strlit("timed out");
    assert("timed out"@.len() == 9);
    if let error::ErrorView::Protocol(message) = fault {
        if text::occurs_in(message, "timed out"@) {
            let i = choose|i: int| text::occurs_at(message, "timed out"@, i);
            assert(message.subrange(i, i + 9) == "timed out"@);
        }
    }
}

/// Every frame that is read is handed on, but for the notice that the session could not be kept,
/// which is an error.
pub proof fn law_frames_are_handed_on(frame: JsonView)
    ensures
        ({
            let lost = frame.get("type"@) == Some(JsonView::Text("notice"@)) && frame.get("level"@)
                == Some(JsonView::Text("error"@)) && frame.get("source"@) == Some(
                JsonView::Text("session-persistence"@),
            );
            session::spec_take_received(ReceivedView::Line(Ok(Some(frame)))) == if lost {
                Err::<Option<JsonView>, error::ErrorView>(
                    error::protocol_fault("OMP session persistence failed"@),
                )
            } else {
                Ok(Some(frame))
            }
        }),
        session::spec_take_received(ReceivedView::Line(Ok(None))) == Ok::<
            Option<JsonView>,
            error::ErrorView,
        >(None),
{
}

/// A line that cannot be read, a failure of the pipe, its end and lost time are each told as what
/// they are.
pub proof fn law_failed_waits(
    e: error::ErrorView,
    fault: Seq<char>,
    status: Seq<char>,
    stderr: Seq<char>,
)
    ensures
        session::spec_take_received(ReceivedView::Line(Err(e))) == Err::<
            Option<JsonView>,
            error::ErrorView,
        >(e),
        session::spec_take_received(ReceivedView::StdoutError(fault)) == Err::<
            Option<JsonView>,
            error::ErrorView,
        >(error::ErrorView::Io(fault)),
        session::spec_take_received(ReceivedView::Eof { status: Ok(Some(status)), stderr }) == Err::<
            Option<JsonView>,
            error::ErrorView,
        >(error::ErrorView::HarnessExited { kind: HarnessKind::Omp, status, stderr }),
        session::spec_take_received(ReceivedView::Eof { status: Ok(None), stderr }) == Err::<
            Option<JsonView>,
            error::ErrorView,
        >(error::protocol_fault("OMP stdout closed unexpectedly"@ + stderr)),
        session::spec_take_received(ReceivedView::Eof { status: Err(fault), stderr }) == Err::<
            Option<JsonView>,
            error::ErrorView,
        >(error::ErrorView::Io(fault)),
        session::spec_take_received(ReceivedView::Disconnected { stderr }) == Err::<
            Option<JsonView>,
            error::ErrorView,
        >(error::protocol_fault("OMP stdout reader disconnected"@ + stderr)),
        session::spec_take_received(ReceivedView::Timeout) == Err::<
            Option<JsonView>,
            error::ErrorView,
        >(error::protocol_fault("OMP frame wait timed out"@)),
{
}

/// What is left of a time is what has not passed of it; a clock that went back takes nothing off.
pub proof fn law_time_left(since: u64, timeout: u64, now: u64)
    ensures
        now >= since && now - since < timeout ==> (session::spec_remaining(since, timeout, now)
            matches Ok(left) && left + (now - since) == timeout),
        now < since && timeout > 0 ==> session::spec_remaining(since, timeout, now) == Ok::<
            u64,
            error::ErrorView,
        >(timeout),
        now >= since && now - since >= timeout ==> session::spec_remaining(since, timeout, now)
            == Err::<u64, error::ErrorView>(error::protocol_fault("OMP frame wait timed out"@)),
{
}

// ---------------------------------------------------------------------------
// Waiting for a response
// ---------------------------------------------------------------------------

/// Whether the notice that the session could not be kept is out of question for a frame.
proof fn lemma_no_notice(frame: JsonView, kind: Seq<char>)
    requires
        frame.get("type"@) == Some(JsonView::Text(kind)),
        kind != "notice"@,
    ensures
        session::spec_take_received(ReceivedView::Line(Ok(Some(frame)))) == Ok::<
            Option<JsonView>,
            error::ErrorView,
        >(Some(frame)),
{
}

/// The response to the awaited command ends the wait with that very frame if it succeeded. One under
/// another name, or of a failure, is an error that tells which command it was and why it failed.
pub proof fn law_the_awaited_response_ends_the_wait(
    awaited: AwaitedView,
    ledger: LedgerView,
    frame: JsonView,
    command: Seq<char>,
)
    requires
        frame.get("type"@) == Some(JsonView::Text("response"@)),
        frame.get("id"@) == Some(JsonView::Text(awaited.id)),
        !ledger.pending.dom().contains(awaited.id),
        frame.get("command"@) == Some(JsonView::Text(command)),
    ensures
        ({
            let (step, left) = session::spec_wait_received(
                awaited,
                ledger,
                ReceivedView::Line(Ok(Some(frame))),
            );
            &&& left == ledger
            &&& if command != awaited.name {
                step == Err::<WaitStepView, error::ErrorView>(
                    error::protocol_fault("OMP "@ + awaited.name + " response command mismatch"@),
                )
            } else if frame.get("success"@) == Some(JsonView::Bool(true)) {
                step == Ok::<WaitStepView, error::ErrorView>(WaitStepView::Done(frame))
            } else {
                &&& step is Err
                &&& frame.get("error"@) matches Some(JsonView::Text(reason)) ==> encode_utf8(
                    reason,
                ).len() <= 4096 ==> step == Err::<WaitStepView, error::ErrorView>(
                    error::protocol_fault("OMP "@ + awaited.name + " failed: "@ + reason),
                )
            }
        }),
{
    reveal_strlit("notice");
    reveal_strlit("response");
    assert("notice"@.len() == 6);
    assert("response"@.len() == 8);
    lemma_no_notice(frame, "response"@);
    if let Some(JsonView::Text(reason)) = frame.get("error"@) {
        error::law_errors_are_told_up_to_a_limit(reason);
    }
}

/// While a response is awaited, one to a control of an earlier turn is taken off the ledger, whether
/// it succeeded or not, and the wait goes on; under another name, or without a result, it is an
/// error.
pub proof fn law_late_responses_are_settled(
    awaited: AwaitedView,
    ledger: LedgerView,
    frame: JsonView,
    id: Seq<char>,
    kind: ControlKind,
    issued: u64,
)
    requires
        frame.get("type"@) == Some(JsonView::Text("response"@)),
        frame.get("id"@) == Some(JsonView::Text(id)),
        ledger.pending.dom().contains(id),
        ledger.pending[id] == (kind, issued),
    ensures
        ({
            let (step, left) = session::spec_wait_received(
                awaited,
                ledger,
                ReceivedView::Line(Ok(Some(frame))),
            );
            let name = match kind {
                ControlKind::Steer => "steer"@,
                ControlKind::Abort => "abort"@,
            };
            let fits = frame.get("command"@) == Some(JsonView::Text(name)) && (frame.get(
                "success"@,
            ) matches Some(JsonView::Bool(_)));
            &&& left.next_id == ledger.next_id
            &&& left.pending == ledger.pending.remove(id)
            &&& step == if fits {
                Ok::<WaitStepView, error::ErrorView>(WaitStepView::Wait)
            } else {
                Err(error::protocol_fault("OMP late control response mismatched"@))
            }
        }),
{
    reveal_strlit("notice");
    reveal_strlit("response");
    assert("notice"@.len() == 6);
    assert("response"@.len() == 8);
    lemma_no_notice(frame, "response"@);
}

/// A response to anything else is an error.
pub proof fn law_other_responses_fail_the_wait(
    awaited: AwaitedView,
    ledger: LedgerView,
    frame: JsonView,
)
    requires
        frame.get("type"@) == Some(JsonView::Text("response"@)),
        frame.get("id"@) != Some(JsonView::Text(awaited.id)),
        frame.get("id"@) matches Some(JsonView::Text(id)) ==> !ledger.pending.dom().contains(id),
    ensures
        session::spec_wait_received(awaited, ledger, ReceivedView::Line(Ok(Some(frame)))) == (
            Err::<WaitStepView, error::ErrorView>(
                error::protocol_fault(
                    "OMP "@ + awaited.name + " received response for unexpected id"@,
                ),
            ),
            ledger,
        ),
{
    reveal_strlit("notice");
    reveal_strlit("response");
    assert("notice"@.len() == 6);
    assert("response"@.len() == 8);
    lemma_no_notice(frame, "response"@);
}

/// Whether a frame only tells that something about the runtime changed.
pub open spec fn tells_a_change(kind: Seq<char>) -> bool {
    ||| kind == "available_commands_update"@
    ||| kind == "config_update"@
    ||| kind == "session_info_update"@
    ||| kind == "thinking_level_changed"@
    ||| kind == "model_changed"@
    ||| kind == "config_warnings_changed"@
    ||| kind == "advisor_cost_changed"@
}

proof fn lemma_changes_are_no_requests(kind: Seq<char>)
    requires
        tells_a_change(kind),
    ensures
        kind.len() != 8,
        kind.len() != 9,
        kind.len() != 6,
        kind != "extension_ui_request"@,
        kind.len() != 14,
        kind.len() != 16,
        kind.len() != 15,
{
    reveal_strlit("available_commands_update");
    reveal_strlit("config_update");
    reveal_strlit("session_info_update");
    reveal_strlit("thinking_level_changed");
    reveal_strlit("model_changed");
    reveal_strlit("config_warnings_changed");
    reveal_strlit("advisor_cost_changed");
    reveal_strlit("extension_ui_request");
    assert("available_commands_update"@.len() == 25);
    assert("config_update"@.len() == 13);
    assert("session_info_update"@.len() == 19);
    assert("thinking_level_changed"@.len() == 22);
    assert("model_changed"@.len() == 13);
    assert("config_warnings_changed"@.len() == 23);
    assert("advisor_cost_changed"@.len() == 20);
    assert("advisor_cost_changed"@[0] == 'a');
    assert("extension_ui_request"@[0] == 'e');
}

/// While a response is awaited, a frame that only tells a change is passed over, and so is the end
/// of an agent that says whether it is terminal.
pub proof fn law_changes_are_passed_over(
    awaited: AwaitedView,
    ledger: LedgerView,
    frame: JsonView,
    kind: Seq<char>,
)
    requires
        frame.get("type"@) == Some(JsonView::Text(kind)),
        tells_a_change(kind) || (kind == "agent_end"@ && frame.get("isTerminal"@) matches Some(
            JsonView::Bool(_),
        )),
    ensures
        session::spec_wait_received(awaited, ledger, ReceivedView::Line(Ok(Some(frame)))) == (
            Ok::<WaitStepView, error::ErrorView>(WaitStepView::Wait),
            ledger,
        ),
{
    turn_laws::lemma_kinds_differ();
    reveal_strlit("notice");
    assert("notice"@.len() == 6);
    if tells_a_change(kind) {
        lemma_changes_are_no_requests(kind);
    }
    lemma_no_notice(frame, kind);
}

/// While a response is awaited, a frame of any other kind is an error that tells both.
pub proof fn law_other_frames_fail_the_wait(
    awaited: AwaitedView,
    ledger: LedgerView,
    frame: JsonView,
    kind: Seq<char>,
)
    requires
        frame.get("type"@) == Some(JsonView::Text(kind)),
        !tells_a_change(kind),
        !asks_the_host(frame),
        kind != "response"@,
        kind != "agent_end"@,
        kind == "notice"@ ==> frame.get("level"@) != Some(JsonView::Text("error"@)),
    ensures
        session::spec_wait_received(awaited, ledger, ReceivedView::Line(Ok(Some(frame)))) == (
            Err::<WaitStepView, error::ErrorView>(
                error::protocol_fault(
                    "OMP emitted semantic frame "@ + kind + " while awaiting "@ + awaited.name,
                ),
            ),
            ledger,
        ),
{
}

/// A command says its identifier and its name, and everything that it is given besides.
pub proof fn law_commands_say_what_they_are(
    fields: Seq<(Seq<char>, JsonView)>,
    id: Seq<char>,
    name: Seq<char>,
    other: Seq<char>,
)
    ensures
        session::command_document(fields, id, name).get("id"@) == Some(JsonView::Text(id)),
        session::command_document(fields, id, name).get("type"@) == Some(JsonView::Text(name)),
        other != "id"@ && other != "type"@ ==> session::command_document(fields, id, name).get(
            other,
        ) == JsonView::Object(fields).get(other),
{
    session::law_command_document_names_itself(fields, id, name, other);
}

} // verus!
