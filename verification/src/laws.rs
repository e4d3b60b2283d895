//! What holds of a turn as a whole.

use vstd::prelude::*;

use crate::error;
use crate::json;
use crate::ledger::{ControlKind, LedgerView};
use crate::protocol;
use crate::run;
use crate::text;
use crate::turn;
use crate::turn::{ControlView, EventView, SentView, StepView, Stepped, TurnView};

verus! {

/// A control that is taken never lets the number of controls without a response pass the limit.
pub proof fn law_controls_stay_within_limit<U>(
    turn: TurnView<U>,
    ledger: LedgerView,
    control: ControlView,
    now: u64,
)
    requires
        ledger.pending.dom().finite(),
        ledger.pending.len() <= turn::MAX_PENDING_CONTROLS,
    ensures
        ({
            let taken = turn::spec_on_control(turn, ledger, control);
            taken.step matches Ok(StepView::Send { command, sent }) ==> {
                let (_, after) = turn::spec_sent(taken.turn, taken.ledger, sent, now);
                after.pending.len() <= turn::MAX_PENDING_CONTROLS
            }
        }),
{
}

/// A control beyond the limit is refused, and changes nothing.
pub proof fn law_controls_beyond_limit_are_refused<U>(
    turn: TurnView<U>,
    ledger: LedgerView,
    control: ControlView,
)
    requires
        !turn.interrupted,
        ledger.pending.len() >= turn::MAX_PENDING_CONTROLS,
    ensures
        turn::spec_on_control(turn, ledger, control) == (Stepped::<U> {
            step: Err(error::protocol_fault("OMP pending control response limit exceeded"@)),
            turn,
            ledger,
        }),
{
}

/// Whether a step asks for an abort to be written.
pub open spec fn asks_abort<U>(taken: Stepped<U>) -> bool {
    taken.step matches Ok(StepView::Send { command, sent }) && sent is Abort
}

/// A turn is aborted at most once: an abort is asked for only while the turn is not interrupted, it
/// interrupts the turn, and nothing takes that back.
pub proof fn law_one_abort_per_turn<U>(
    turn: TurnView<U>,
    ledger: LedgerView,
    control: ControlView,
    event: EventView<U>,
    frame: json::JsonView,
    output_limit: usize,
    sent: SentView,
    now: u64,
)
    ensures
        asks_abort(turn::spec_on_control(turn, ledger, control)) ==> !turn.interrupted
            && turn::spec_on_control(turn, ledger, control).turn.interrupted,
        asks_abort(turn::spec_on_event(turn, ledger, event)) ==> !turn.interrupted
            && turn::spec_on_event(turn, ledger, event).turn.interrupted,
        !asks_abort(turn::spec_on_frame(turn, ledger, frame, output_limit)),
        turn.interrupted ==> turn::spec_on_control(turn, ledger, control).turn.interrupted,
        turn.interrupted ==> turn::spec_on_event(turn, ledger, event).turn.interrupted,
        turn.interrupted ==> turn::spec_on_frame(
            turn,
            ledger,
            frame,
            output_limit,
        ).turn.interrupted,
        turn.interrupted ==> turn::spec_sent(turn, ledger, sent, now).0.interrupted,
{
}

/// Once a turn is interrupted the user's controls do nothing.
pub proof fn law_interrupted_turn_ignores_controls<U>(
    turn: TurnView<U>,
    ledger: LedgerView,
    control: ControlView,
)
    requires
        turn.interrupted,
    ensures
        turn::spec_on_control(turn, ledger, control) == (Stepped::<U> {
            step: Ok(StepView::Idle),
            turn,
            ledger,
        }),
{
}

/// A response to a control of an earlier turn, late as it is, never fails this one, whether or not
/// the control succeeded: it is taken off the ledger, and the turn stays as it was. The turn and the
/// ledger are any that a run comes to.
pub proof fn law_late_control_never_fails_a_turn<U>(
    turn: TurnView<U>,
    ledger: LedgerView,
    frame: json::JsonView,
    output_limit: usize,
    id: Seq<char>,
    kind: ControlKind,
    issued: u64,
)
    requires
        frame.text("type"@) == Some("response"@),
        frame.text("id"@) == Some(id),
        frame.text("command"@) == Some(kind.spec_name()),
        frame.flag("success"@) is Some,
        run::identified(turn),
        ledger.identified(),
        ledger.pending.dom().contains(id),
        ledger.pending[id] == (kind, issued),
        issued != turn.sequence,
    ensures
        turn::spec_on_frame(turn, ledger, frame, output_limit) == (Stepped::<U> {
            step: Ok(StepView::Idle),
            turn,
            ledger: ledger.answered(id),
        }),
{
    run::lemma_controls_are_told_apart(turn, ledger, id);
}

/// A response that nothing waits for ends the turn with an error that names it, or with one that names
/// what the response lacks. The turn and the ledger stay as they were.
pub proof fn law_unknown_response_fails<U>(
    turn: TurnView<U>,
    ledger: LedgerView,
    frame: json::JsonView,
    output_limit: usize,
)
    requires
        frame.text("type"@) == Some("response"@),
        frame.text("id"@) matches Some(id) ==> {
            &&& id != turn.prompt_id
            &&& turn.terminal_check matches Some((check, _)) ==> check != id
            &&& !ledger.pending.dom().contains(id)
        },
    ensures
        turn::spec_on_frame(turn, ledger, frame, output_limit) == (Stepped::<U> {
            step: Err(
                error::protocol_fault(
                    match (frame.text("id"@), frame.text("command"@), frame.flag("success"@)) {
                        (None, _, _) => "OMP response omitted string id"@,
                        (Some(_), None, _) => "OMP response omitted command"@,
                        (Some(_), Some(_), None) => "OMP response omitted success"@,
                        (Some(id), Some(_), Some(_)) =>
                            "OMP emitted response for unknown active-turn id "@ + id,
                    },
                ),
            ),
            turn,
            ledger,
        }),
{
}

/// The end of an agent run that comes before the agent of this turn has started belongs to the turn
/// before, and is passed over.
pub proof fn law_stale_terminal_is_ignored<U>(
    turn: TurnView<U>,
    ledger: LedgerView,
    frame: json::JsonView,
    output_limit: usize,
)
    requires
        frame.text("type"@) == Some("agent_end"@),
        frame.flag("isTerminal"@) is Some,
        !turn.agent_started,
    ensures
        turn::spec_on_frame(turn, ledger, frame, output_limit) == (Stepped::<U> {
            step: Ok(StepView::Idle),
            turn,
            ledger,
        }),
{
    protocol::lemma_callback_kinds();
}

/// Whether a frame may bring a turn to rest: it says of this turn's prompt that no agent was called,
/// or it answers the question of this turn whether the runtime is at rest with yes.
pub open spec fn settles<U>(turn: TurnView<U>, frame: json::JsonView) -> bool {
    ||| {
        &&& frame.text("type"@) == Some("response"@)
        &&& frame.text("id"@) == Some(turn.prompt_id)
        &&& frame.text("command"@) == Some("prompt"@)
        &&& frame.flag("success"@) == Some(true)
        &&& turn::agent_not_invoked(frame)
    }
    ||| {
        &&& frame.text("type"@) == Some("prompt_result"@)
        &&& frame.text("id"@) == Some(turn.prompt_id)
        &&& frame.flag("agentInvoked"@) == Some(false)
    }
    ||| {
        &&& frame.text("type"@) == Some("response"@)
        &&& frame.text("id"@) is Some
        &&& frame.text("id"@) != Some(turn.prompt_id)
        &&& turn.terminal_check matches Some((id, _)) && frame.text("id"@) == Some(id)
        &&& frame.text("command"@) == Some("get_state"@)
        &&& frame.flag("success"@) == Some(true)
        &&& frame.nested("data"@, "isStreaming"@) == Some(json::JsonView::Bool(false))
    }
}

/// Only a frame that settles the turn brings it to rest, and nothing else does: no terminal event by
/// itself, no control, no event and no report of a written command.
pub proof fn law_only_settling_frames_bring_rest<U>(
    turn: TurnView<U>,
    ledger: LedgerView,
    frame: json::JsonView,
    output_limit: usize,
    control: ControlView,
    event: EventView<U>,
    sent: SentView,
    now: u64,
)
    requires
        !turn.terminal_seen,
    ensures
        turn::spec_on_frame(turn, ledger, frame, output_limit).turn.terminal_seen <==> settles(
            turn,
            frame,
        ),
        !turn::spec_on_control(turn, ledger, control).turn.terminal_seen,
        !turn::spec_on_event(turn, ledger, event).turn.terminal_seen,
        !turn::spec_sent(turn, ledger, sent, now).0.terminal_seen,
{
    protocol::lemma_callback_kinds();
}

/// Whenever the runtime's word that it is at rest settles a turn, the agent of that turn has started
/// before, and with it the question was asked.
pub proof fn law_confirmed_rest_follows_the_agent<U>(
    turn: TurnView<U>,
    ledger: LedgerView,
    frame: json::JsonView,
    output_limit: usize,
)
    requires
        run::consistent(turn, false),
        !turn.terminal_seen,
        frame.text("type"@) == Some("response"@),
        frame.text("id"@) != Some(turn.prompt_id),
        turn::spec_on_frame(turn, ledger, frame, output_limit).turn.terminal_seen,
    ensures
        turn.agent_started,
        turn.terminal_check matches Some((id, _)) && frame.text("id"@) == Some(id),
{
}

/// The prompt is acknowledged only by a successful response to it.
pub proof fn law_only_its_response_acknowledges_the_prompt<U>(
    turn: TurnView<U>,
    ledger: LedgerView,
    frame: json::JsonView,
    output_limit: usize,
)
    requires
        !turn.prompt_acknowledged,
    ensures
        turn::spec_on_frame(turn, ledger, frame, output_limit).turn.prompt_acknowledged <==> {
            &&& frame.text("type"@) == Some("response"@)
            &&& frame.text("id"@) == Some(turn.prompt_id)
            &&& frame.text("command"@) == Some("prompt"@)
            &&& frame.flag("success"@) == Some(true)
        },
{
}

/// A turn is complete exactly when the agent is at rest and the prompt was acknowledged or the turn
/// interrupted, whatever the time.
pub proof fn law_completion<U>(turn: TurnView<U>, now: u64)
    ensures
        turn::spec_verdict(turn, now) is Complete <==> turn.terminal_seen && (
        turn.prompt_acknowledged || turn.interrupted),
{
}

/// The runtime is stopped by force only when an abort was sent and its grace has passed.
pub proof fn law_force_stop_needs_an_expired_abort<U>(turn: TurnView<U>, now: u64)
    ensures
        turn::spec_verdict(turn, now) is ForceStop ==> turn.interrupted && (
        turn.abort_since matches Some(since) && now - since >= turn::ABORT_GRACE),
{
}

/// A turn cannot go on for ever without progress: once the watchdog's time has passed it does not
/// wait for another frame.
pub proof fn law_watchdog<U>(turn: TurnView<U>, now: u64)
    requires
        now - turn.last_progress >= turn::TURN_IDLE_TIMEOUT,
    ensures
        !(turn::spec_verdict(turn, now) is Receive),
{
}

/// A turn whose abort was sent ends, one way or another, once the grace has passed.
pub proof fn law_abort_ends_the_turn<U>(turn: TurnView<U>, since: u64, now: u64)
    requires
        turn.interrupted,
        turn.abort_since == Some(since),
        now - since >= turn::ABORT_GRACE,
    ensures
        turn::spec_verdict(turn, now) is Complete || turn::spec_verdict(turn, now) is ForceStop,
{
}

/// The first error of a turn decides how it ends: later ones, and everything else that happens,
/// leave it in place.
pub proof fn law_first_error_is_kept<U>(
    turn: TurnView<U>,
    ledger: LedgerView,
    frame: json::JsonView,
    output_limit: usize,
    control: ControlView,
    event: EventView<U>,
    first: Seq<char>,
)
    requires
        turn.turn_error == Some(first),
    ensures
        turn::spec_on_event(turn, ledger, event).turn.turn_error == Some(first),
        turn::spec_on_frame(turn, ledger, frame, output_limit).turn.turn_error == Some(first),
        turn::spec_on_control(turn, ledger, control).turn.turn_error == Some(first),
        turn::spec_conclude(turn) == Err::<turn::TurnOutcome<U>, error::ErrorView>(
            error::protocol_fault(first),
        ),
{
}

/// An error event is never shown; every other event is.
pub proof fn law_error_events_are_withheld<U>(
    turn: TurnView<U>,
    ledger: LedgerView,
    event: EventView<U>,
)
    ensures
        turn::spec_on_event(turn, ledger, event).step == Ok::<StepView, error::ErrorView>(
            StepView::Emit,
        ) <==> !(event is Error),
{
}

/// The member of an answer that names what it answers.
proof fn lemma_denials_name_the_request(id: Seq<char>)
    ensures
        protocol::dialog_denial(id).text("id"@) == Some(id),
        protocol::host_tool_denial(id).text("id"@) == Some(id),
        protocol::host_uri_denial(id).text("id"@) == Some(id),
{
    reveal_strlit("id");
    reveal_strlit("type");
    assert("id"@.len() == 2);
    assert("type"@.len() == 4);
    let a = protocol::dialog_denial(id)->Object_0;
    let b = protocol::host_tool_denial(id)->Object_0;
    let c = protocol::host_uri_denial(id)->Object_0;
    reveal_with_fuel(json::lookup, 3);
    assert(a.skip(1)[0] == a[1]);
    assert(b.skip(1)[0] == b[1]);
    assert(c.skip(1)[0] == c[1]);
}

/// Nothing that the runtime asks the host to do is done. Every such frame is refused: with an answer
/// that names the request and says that it was cancelled or failed, without one, or as an error;
/// and the turn and the ledger stay as they were.
pub proof fn law_callbacks_are_always_denied<U>(
    turn: TurnView<U>,
    ledger: LedgerView,
    frame: json::JsonView,
    output_limit: usize,
    kind: Seq<char>,
)
    requires
        frame.text("type"@) == Some(kind),
        protocol::spec_privileged_callback(kind),
    ensures
        ({
            let taken = turn::spec_on_frame(turn, ledger, frame, output_limit);
            &&& taken.turn == turn
            &&& taken.ledger == ledger
            &&& match taken.step {
                Err(_) => true,
                Ok(StepView::Progress) => true,
                Ok(StepView::Send { command, sent }) => {
                    &&& sent is Denial
                    &&& frame.text("id"@) matches Some(id) && {
                        &&& command.text("id"@) == Some(id)
                        &&& {
                            ||| command == protocol::dialog_denial(id)
                            ||| command == protocol::host_tool_denial(id)
                            ||| command == protocol::host_uri_denial(id)
                        }
                    }
                },
                _ => false,
            }
        }),
{
    protocol::lemma_callback_kinds();
    if frame.text("id"@) is Some {
        lemma_denials_name_the_request(frame.text("id"@)->Some_0);
    }
}

/// What commands print before the agent starts is kept, in order and within its limit, until it is
/// shown.
pub proof fn law_early_output_is_bounded<U>(
    turn: TurnView<U>,
    ledger: LedgerView,
    frame: json::JsonView,
    output_limit: usize,
)
    requires
        text::byte_len(turn.pending_output) <= output_limit,
    ensures
        text::byte_len(
            turn::spec_on_frame(turn, ledger, frame, output_limit).turn.pending_output,
        ) <= output_limit,
{
    if frame.text("text"@) is Some {
        text::lemma_encode_concat(turn.pending_output, frame.text("text"@)->Some_0);
    }
    assert(text::byte_len(Seq::<char>::empty()) == 0);
}

/// A steer or an abort that was written is answered exactly once: its response takes it off the
/// ledger, and a second response to it is an unknown one.
pub proof fn law_control_is_answered_once<U>(
    turn: TurnView<U>,
    ledger: LedgerView,
    id: Seq<char>,
    command: Seq<char>,
    success: bool,
    again: Seq<char>,
    success_again: bool,
)
    requires
        ledger.pending.dom().contains(id),
    ensures
        ({
            let taken = turn::on_control_response(turn, ledger, id, command, success);
            &&& !taken.ledger.pending.dom().contains(id)
            &&& turn::on_control_response(
                taken.turn,
                taken.ledger,
                id,
                again,
                success_again,
            ).step is Err
        }),
{
}

} // verus!
