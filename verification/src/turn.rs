//! A turn of the agent: from the prompt to its settled end, through the frames of the runtime and
//! the controls of the user.

use vstd::prelude::*;

use crate::error;
use crate::error::{bounded_error, protocol_error, HarnessServerError};
use crate::json;
use crate::json::{Fields, Json};
use crate::ledger;
use crate::ledger::{CommandLedger, ControlKind, LedgerView};
use crate::prompt;
use crate::prompt::{image_documents, prompt_content, Prompt, UserInput};
use crate::protocol;
use crate::protocol::{deny_callback, frame_type, is_privileged_callback};
use crate::text;
use crate::text::{concat, concat3, contains, option_eq, text_eq};

verus! {

/// How long a command may stay without its response, in nanoseconds.
pub const COMMAND_TIMEOUT: u64 = 30_000_000_000;

/// How long a turn may stay without progress, in nanoseconds.
pub const TURN_IDLE_TIMEOUT: u64 = 1_800_000_000_000;

/// How long an aborted turn may take to settle, in nanoseconds.
pub const ABORT_GRACE: u64 = 5_000_000_000;

/// How long one wait for a frame lasts while a turn runs, in nanoseconds.
pub const POLL_INTERVAL: u64 = 50_000_000;

/// How many controls may be without their response.
pub const MAX_PENDING_CONTROLS: usize = 1024;

/// What the user asks of a running turn.
#[derive(Debug)]
pub enum TurnControl {
    Steer(Vec<UserInput>),
    Interrupt,
}

/// The content of a [`TurnControl`].
pub enum ControlView {
    Steer(Seq<prompt::InputView>),
    Interrupt,
}

impl View for TurnControl {
    type V = ControlView;

    open spec fn view(&self) -> ControlView {
        match self {
            TurnControl::Steer(input) => ControlView::Steer(prompt::inputs(input@)),
            TurnControl::Interrupt => ControlView::Interrupt,
        }
    }
}

/// How a turn ended.
#[derive(Debug)]
pub struct TurnOutcome<U> {
    pub interrupted: bool,
    pub usage: Option<U>,
}

/// The question to the runtime whether it has come to rest, and when it was sent.
#[derive(Debug)]
pub struct TerminalCheck {
    pub id: String,
    pub since: u64,
}

/// A turn that is under way. Times are in nanoseconds of one monotonic clock; `U` is the account of
/// the tokens that were used.
#[derive(Debug)]
pub struct Turn<U> {
    pub prompt_id: String,
    /// The sequence number of the prompt, which stands for the turn.
    pub sequence: u64,
    pub started: u64,
    pub last_progress: u64,
    pub prompt_acknowledged: bool,
    pub agent_started: bool,
    pub terminal_seen: bool,
    pub terminal_check: Option<TerminalCheck>,
    pub interrupted: bool,
    /// When the abort was sent.
    pub abort_since: Option<u64>,
    pub turn_error: Option<String>,
    /// What commands printed before the agent started.
    pub pending_output: String,
    pub usage: Option<U>,
}

/// The content of a [`Turn`].
#[verifier::ext_equal]
pub struct TurnView<U> {
    pub prompt_id: Seq<char>,
    pub sequence: u64,
    pub started: u64,
    pub last_progress: u64,
    pub prompt_acknowledged: bool,
    pub agent_started: bool,
    pub terminal_seen: bool,
    pub terminal_check: Option<(Seq<char>, u64)>,
    pub interrupted: bool,
    pub abort_since: Option<u64>,
    pub turn_error: Option<Seq<char>>,
    pub pending_output: Seq<char>,
    pub usage: Option<U>,
}

/// The content of an optional string.
pub open spec fn optional_text(value: Option<String>) -> Option<Seq<char>> {
    match value {
        Some(s) => Some(s@),
        None => None,
    }
}

impl<U> View for Turn<U> {
    type V = TurnView<U>;

    open spec fn view(&self) -> TurnView<U> {
        TurnView {
            prompt_id: self.prompt_id@,
            sequence: self.sequence,
            started: self.started,
            last_progress: self.last_progress,
            prompt_acknowledged: self.prompt_acknowledged,
            agent_started: self.agent_started,
            terminal_seen: self.terminal_seen,
            terminal_check: match self.terminal_check {
                Some(check) => Some((check.id@, check.since)),
                None => None,
            },
            interrupted: self.interrupted,
            abort_since: self.abort_since,
            turn_error: optional_text(self.turn_error),
            pending_output: self.pending_output@,
            usage: self.usage,
        }
    }
}

/// A command that the turn has asked to be written, to be reported back once it is.
#[derive(Debug)]
pub enum Sent {
    Steer { id: String },
    Abort { id: String },
    TerminalCheck { id: String },
    Denial,
}

/// The content of a [`Sent`].
pub enum SentView {
    Steer { id: Seq<char> },
    Abort { id: Seq<char> },
    TerminalCheck { id: Seq<char> },
    Denial,
}

impl View for Sent {
    type V = SentView;

    open spec fn view(&self) -> SentView {
        match self {
            Sent::Steer { id } => SentView::Steer { id: id@ },
            Sent::Abort { id } => SentView::Abort { id: id@ },
            Sent::TerminalCheck { id } => SentView::TerminalCheck { id: id@ },
            Sent::Denial => SentView::Denial,
        }
    }
}

/// What is to be done next.
#[derive(Debug)]
pub enum Step {
    /// Nothing.
    Idle,
    /// Note the time as that of the last progress.
    Progress,
    /// Write the command, then report it as sent.
    Send { command: Json, sent: Sent },
    /// Show the output of commands as the answer, then note progress.
    Flush { output: String },
    /// Show the output of commands where there is any to show, then the events of the frame, then
    /// note progress.
    Normalize { early: Option<String> },
    /// Show the event.
    Emit,
}

/// The content of a [`Step`].
pub enum StepView {
    Idle,
    Progress,
    Send { command: json::JsonView, sent: SentView },
    Flush { output: Seq<char> },
    Normalize { early: Option<Seq<char>> },
    Emit,
}

impl View for Step {
    type V = StepView;

    open spec fn view(&self) -> StepView {
        match self {
            Step::Idle => StepView::Idle,
            Step::Progress => StepView::Progress,
            Step::Send { command, sent } => StepView::Send { command: command@, sent: sent@ },
            Step::Flush { output } => StepView::Flush { output: output@ },
            Step::Normalize { early } => StepView::Normalize { early: optional_text(*early) },
            Step::Emit => StepView::Emit,
        }
    }
}

/// What a step of a turn gives: what is to be done, or the error that ends the turn, with the turn
/// and the ledger after it.
pub struct Stepped<U> {
    pub step: Result<StepView, error::ErrorView>,
    pub turn: TurnView<U>,
    pub ledger: LedgerView,
}

// ---------------------------------------------------------------------------
// The commands
// ---------------------------------------------------------------------------

/// A command without arguments.
pub open spec fn bare_command(id: Seq<char>, kind: Seq<char>) -> json::JsonView {
    json::JsonView::Object(
        seq![("id"@, json::JsonView::Text(id)), ("type"@, json::JsonView::Text(kind))],
    )
}

/// A command that carries a message, and images where there are any.
pub open spec fn message_command(
    id: Seq<char>,
    kind: Seq<char>,
    message: Seq<char>,
    images: Seq<prompt::ImageView>,
) -> json::JsonView {
    let base = seq![
        ("id"@, json::JsonView::Text(id)),
        ("type"@, json::JsonView::Text(kind)),
        ("message"@, json::JsonView::Text(message)),
    ];
    if images.len() == 0 {
        json::JsonView::Object(base)
    } else {
        json::JsonView::Object(
            base.push(
                (
                    "images"@,
                    json::JsonView::List(
                        images.map_values(|v: prompt::ImageView| prompt::image_document(v)),
                    ),
                ),
            ),
        )
    }
}

fn write_bare_command(id: &str, kind: &str) -> (command: Json)
    ensures
        command@ == bare_command(id@, kind@),
{
    let fields = Fields::new().add_text("id", id).add_text("type", kind);
    assert(fields@ =~= bare_command(id@, kind@)->Object_0);
    fields.object()
}

fn write_message_command(id: &str, kind: &str, content: Prompt) -> (command: Json)
    ensures
        command@ == message_command(id@, kind@, content@.0, content@.1),
{
    let fields = Fields::new().add_text("id", id).add_text("type", kind).add_text(
        "message",
        content.message.as_str(),
    );
    assert(content@.1.len() == content.images@.len());
    let fields = if content.images.len() == 0 {
        fields
    } else {
        fields.add("images", Json::List(image_documents(&content.images)))
    };
    assert(fields@ =~= message_command(id@, kind@, content@.0, content@.1)->Object_0);
    fields.object()
}

// ---------------------------------------------------------------------------
// Beginning a turn
// ---------------------------------------------------------------------------

/// The prompt that opens a turn.
#[derive(Debug)]
pub struct Opening {
    pub prompt_id: String,
    pub sequence: u64,
    pub command: Json,
}

/// The content of an [`Opening`].
pub struct OpeningView {
    pub prompt_id: Seq<char>,
    pub sequence: u64,
    pub command: json::JsonView,
}

impl View for Opening {
    type V = OpeningView;

    open spec fn view(&self) -> OpeningView {
        OpeningView {
            prompt_id: self.prompt_id@,
            sequence: self.sequence,
            command: self.command@,
        }
    }
}

/// The prompt for what the user sent.
pub open spec fn spec_open_turn(
    ledger: LedgerView,
    input: Seq<prompt::InputView>,
) -> Result<OpeningView, error::ErrorView> {
    match prompt::spec_prompt_content(input) {
        Err(e) => Err(e),
        Ok((message, images)) => {
            let id = ledger::spec_command_id("prompt"@, ledger.next_id);
            Ok(
                OpeningView {
                    prompt_id: id,
                    sequence: ledger.next_id,
                    command: message_command(id, "prompt"@, message, images),
                },
            )
        },
    }
}

/// Puts together the prompt that opens a turn. Only a prompt that can be sent takes a number.
pub fn open_turn(ledger: &mut CommandLedger, input: &[UserInput]) -> (r: Result<
    Opening,
    HarnessServerError,
>)
    requires
        old(ledger).wf(),
        prompt::all_encodable(prompt::inputs(input@)),
    ensures
        final(ledger).wf(),
        error::agrees(r, spec_open_turn(old(ledger)@, prompt::inputs(input@))),
        final(ledger)@ == if r is Ok {
            old(ledger)@.numbered()
        } else {
            old(ledger)@
        },
{
    let content = match prompt_content(input) {
        Ok(content) => content,
        Err(e) => {
            return Err(e);
        },
    };
    let sequence = ledger.next_id;
    let prompt_id = ledger.command_id("prompt");
    let command = write_message_command(prompt_id.as_str(), "prompt", content);
    Ok(Opening { prompt_id, sequence, command })
}

/// The turn right after its prompt was written.
pub open spec fn spec_begin<U>(opening: OpeningView, now: u64) -> TurnView<U> {
    TurnView {
        prompt_id: opening.prompt_id,
        sequence: opening.sequence,
        started: now,
        last_progress: now,
        prompt_acknowledged: false,
        agent_started: false,
        terminal_seen: false,
        terminal_check: None,
        interrupted: false,
        abort_since: None,
        turn_error: None,
        pending_output: seq![],
        usage: None,
    }
}

// ---------------------------------------------------------------------------
// Controls
// ---------------------------------------------------------------------------

/// An abort of the turn.
pub open spec fn spec_abort<U>(turn: TurnView<U>, ledger: LedgerView) -> Stepped<U> {
    let id = ledger::spec_command_id("abort"@, ledger.next_id);
    Stepped {
        step: Ok(
            StepView::Send {
                command: bare_command(id, "abort"@),
                sent: SentView::Abort { id },
            },
        ),
        turn: TurnView { interrupted: true, ..turn },
        ledger: ledger.numbered(),
    }
}

/// What a control of the user does. Once the turn is interrupted, controls are dropped; before
/// that, too many controls without a response are an error.
pub open spec fn spec_on_control<U>(
    turn: TurnView<U>,
    ledger: LedgerView,
    control: ControlView,
) -> Stepped<U> {
    if turn.interrupted {
        Stepped { step: Ok(StepView::Idle), turn, ledger }
    } else if ledger.pending.len() >= MAX_PENDING_CONTROLS {
        Stepped {
            step: Err(error::protocol_fault("OMP pending control response limit exceeded"@)),
            turn,
            ledger,
        }
    } else {
        match control {
            ControlView::Interrupt => spec_abort(turn, ledger),
            ControlView::Steer(input) => match prompt::spec_prompt_content(input) {
                Err(e) => Stepped { step: Err(e), turn, ledger },
                Ok((message, images)) => {
                    let id = ledger::spec_command_id("steer"@, ledger.next_id);
                    Stepped {
                        step: Ok(
                            StepView::Send {
                                command: message_command(id, "steer"@, message, images),
                                sent: SentView::Steer { id },
                            },
                        ),
                        turn,
                        ledger: ledger.numbered(),
                    }
                },
            },
        }
    }
}

/// What the report of a written command changes.
pub open spec fn spec_sent<U>(
    turn: TurnView<U>,
    ledger: LedgerView,
    sent: SentView,
    now: u64,
) -> (TurnView<U>, LedgerView) {
    match sent {
        SentView::Steer { id } => (turn, ledger.recorded(id, ControlKind::Steer, turn.sequence)),
        SentView::Abort { id } => (
            TurnView { abort_since: Some(now), ..turn },
            ledger.recorded(id, ControlKind::Abort, turn.sequence),
        ),
        SentView::TerminalCheck { id } => (
            TurnView { terminal_check: Some((id, now)), ..turn },
            ledger,
        ),
        SentView::Denial => (TurnView { last_progress: now, ..turn }, ledger),
    }
}

// ---------------------------------------------------------------------------
// The clock
// ---------------------------------------------------------------------------

/// Whether at least `limit` has passed since a time.
pub open spec fn passed(since: u64, now: u64, limit: u64) -> bool {
    now - since >= limit
}

/// What is to be done before the next wait for a frame.
#[derive(Debug)]
pub enum Verdict {
    /// The turn has come to its end: announce the result, then conclude.
    Complete,
    /// The abort was not honoured in time: stop the runtime, then conclude.
    ForceStop,
    /// The turn has failed.
    Failed(HarnessServerError),
    /// Wait for a frame.
    Receive,
}

/// The content of a [`Verdict`].
pub enum VerdictView {
    Complete,
    ForceStop,
    Failed(error::ErrorView),
    Receive,
}

impl View for Verdict {
    type V = VerdictView;

    open spec fn view(&self) -> VerdictView {
        match self {
            Verdict::Complete => VerdictView::Complete,
            Verdict::ForceStop => VerdictView::ForceStop,
            Verdict::Failed(e) => VerdictView::Failed(e@),
            Verdict::Receive => VerdictView::Receive,
        }
    }
}

/// Whether a turn has come to its end: the agent is at rest, and the prompt was acknowledged or
/// the turn interrupted.
pub open spec fn settled<U>(turn: TurnView<U>) -> bool {
    turn.terminal_seen && (turn.prompt_acknowledged || turn.interrupted)
}

/// What is to be done before the next wait for a frame.
pub open spec fn spec_verdict<U>(turn: TurnView<U>, now: u64) -> VerdictView {
    if settled(turn) {
        VerdictView::Complete
    } else if turn.interrupted && (turn.abort_since matches Some(since) && passed(
        since,
        now,
        ABORT_GRACE,
    )) {
        VerdictView::ForceStop
    } else if !turn.prompt_acknowledged && passed(turn.started, now, COMMAND_TIMEOUT) {
        VerdictView::Failed(error::protocol_fault("OMP prompt acknowledgement timed out"@))
    } else if turn.terminal_check matches Some((id, since)) && passed(since, now, COMMAND_TIMEOUT) {
        VerdictView::Failed(error::protocol_fault("OMP terminal state check timed out"@))
    } else if passed(turn.last_progress, now, TURN_IDLE_TIMEOUT) {
        VerdictView::Failed(
            error::protocol_fault(
                "OMP turn made no transport progress before watchdog expiry"@,
            ),
        )
    } else {
        VerdictView::Receive
    }
}

/// Whether a wait for a frame that failed leaves the turn going: one that only ran out of time.
pub open spec fn spec_tolerates(fault: error::ErrorView) -> bool {
    fault matches error::ErrorView::Protocol(message) && text::occurs_in(message, "timed out"@)
}

// ---------------------------------------------------------------------------
// Frames
// ---------------------------------------------------------------------------

/// A step that ends the turn with an error.
pub open spec fn refused<U>(turn: TurnView<U>, ledger: LedgerView, message: Seq<char>) -> Stepped<
    U,
> {
    Stepped { step: Err(error::protocol_fault(message)), turn, ledger }
}

/// The turn after its prompt was answered without the agent: the output of commands is the answer.
pub open spec fn answered_by_commands<U>(turn: TurnView<U>, ledger: LedgerView) -> Stepped<U> {
    Stepped {
        step: Ok(StepView::Flush { output: turn.pending_output }),
        turn: TurnView { pending_output: seq![], terminal_seen: true, ..turn },
        ledger,
    }
}

/// Whether the `data` of a response says that the agent was not called.
pub open spec fn agent_not_invoked(frame: json::JsonView) -> bool {
    frame.nested("data"@, "agentInvoked"@) == Some(json::JsonView::Bool(false))
}

/// The response to the prompt.
pub open spec fn on_prompt_response<U>(
    turn: TurnView<U>,
    ledger: LedgerView,
    frame: json::JsonView,
    command: Seq<char>,
    success: bool,
) -> Stepped<U> {
    if command != "prompt"@ {
        refused(turn, ledger, "OMP prompt response command mismatch"@)
    } else if !success {
        refused(
            turn,
            ledger,
            "OMP prompt failed: "@ + error::spec_bounded_error(frame.text("error"@)),
        )
    } else {
        let acknowledged = TurnView { prompt_acknowledged: true, ..turn };
        if agent_not_invoked(frame) {
            answered_by_commands(acknowledged, ledger)
        } else {
            Stepped { step: Ok(StepView::Progress), turn: acknowledged, ledger }
        }
    }
}

/// The response to the question whether the runtime has come to rest. A terminal event carries no
/// prompt, so only this response settles the turn.
pub open spec fn on_check_response<U>(
    turn: TurnView<U>,
    ledger: LedgerView,
    frame: json::JsonView,
    command: Seq<char>,
    success: bool,
) -> Stepped<U> {
    if command != "get_state"@ || !success {
        refused(turn, ledger, "OMP terminal state check failed or mismatched"@)
    } else {
        match frame.nested("data"@, "isStreaming"@) {
            Some(json::JsonView::Bool(streaming)) => Stepped {
                step: Ok(
                    if streaming {
                        StepView::Idle
                    } else {
                        StepView::Progress
                    },
                ),
                turn: TurnView { terminal_check: None, terminal_seen: !streaming, ..turn },
                ledger,
            },
            _ => refused(turn, ledger, "OMP terminal state omitted isStreaming"@),
        }
    }
}

/// The response to a control. A control of an earlier turn must name its command, but its failure
/// does not fail this turn.
pub open spec fn on_control_response<U>(
    turn: TurnView<U>,
    ledger: LedgerView,
    id: Seq<char>,
    command: Seq<char>,
    success: bool,
) -> Stepped<U> {
    if !ledger.pending.dom().contains(id) {
        refused(turn, ledger, "OMP emitted response for unknown active-turn id "@ + id)
    } else {
        let (kind, issued) = ledger.pending[id];
        let rest = ledger.answered(id);
        if command != kind.spec_name() || (issued == turn.sequence && !success) {
            refused(turn, rest, "OMP "@ + kind.spec_name() + " response failed or mismatched"@)
        } else {
            Stepped {
                step: Ok(
                    if issued == turn.sequence {
                        StepView::Progress
                    } else {
                        StepView::Idle
                    },
                ),
                turn,
                ledger: rest,
            }
        }
    }
}

/// A response of the runtime.
pub open spec fn on_response<U>(
    turn: TurnView<U>,
    ledger: LedgerView,
    frame: json::JsonView,
) -> Stepped<U> {
    match frame.text("id"@) {
        None => refused(turn, ledger, "OMP response omitted string id"@),
        Some(id) => match frame.text("command"@) {
            None => refused(turn, ledger, "OMP response omitted command"@),
            Some(command) => match frame.flag("success"@) {
                None => refused(turn, ledger, "OMP response omitted success"@),
                Some(success) => if id == turn.prompt_id {
                    on_prompt_response(turn, ledger, frame, command, success)
                } else if turn.terminal_check matches Some((expected, _)) && expected == id {
                    on_check_response(turn, ledger, frame, command, success)
                } else {
                    on_control_response(turn, ledger, id, command, success)
                },
            },
        },
    }
}

/// The end of an agent run. Before the agent has started it belongs to the turn before.
pub open spec fn on_agent_end<U>(
    turn: TurnView<U>,
    ledger: LedgerView,
    frame: json::JsonView,
) -> Stepped<U> {
    match frame.flag("isTerminal"@) {
        None => refused(turn, ledger, "OMP agent_end omitted boolean isTerminal"@),
        Some(terminal) => if !turn.agent_started {
            Stepped { step: Ok(StepView::Idle), turn, ledger }
        } else if !terminal {
            Stepped { step: Ok(StepView::Progress), turn, ledger }
        } else if turn.terminal_check is None {
            let id = ledger::spec_command_id("get_state"@, ledger.next_id);
            Stepped {
                step: Ok(
                    StepView::Send {
                        command: bare_command(id, "get_state"@),
                        sent: SentView::TerminalCheck { id },
                    },
                ),
                turn,
                ledger: ledger.numbered(),
            }
        } else {
            Stepped { step: Ok(StepView::Idle), turn, ledger }
        },
    }
}

/// The output of a command before the agent has started: it is kept, up to `output_limit` bytes.
pub open spec fn on_early_output<U>(
    turn: TurnView<U>,
    ledger: LedgerView,
    frame: json::JsonView,
    output_limit: usize,
) -> Stepped<U> {
    match frame.text("text"@) {
        None => refused(turn, ledger, "OMP command_output omitted text"@),
        Some(output) => if text::byte_len(turn.pending_output) + text::byte_len(output)
            > output_limit {
            refused(turn, ledger, "OMP pending command output exceeds its size limit"@)
        } else {
            Stepped {
                step: Ok(StepView::Progress),
                turn: TurnView { pending_output: turn.pending_output + output, ..turn },
                ledger,
            }
        },
    }
}

/// What a frame of the runtime does.
pub open spec fn spec_on_frame<U>(
    turn: TurnView<U>,
    ledger: LedgerView,
    frame: json::JsonView,
    output_limit: usize,
) -> Stepped<U> {
    match protocol::spec_frame_type(frame) {
        Err(e) => Stepped { step: Err(e), turn, ledger },
        Ok(kind) => if kind == "response"@ {
            on_response(turn, ledger, frame)
        } else if kind == "prompt_result"@ {
            if frame.text("id"@) == Some(turn.prompt_id) && frame.flag("agentInvoked"@) == Some(
                false,
            ) {
                answered_by_commands(turn, ledger)
            } else {
                Stepped { step: Ok(StepView::Idle), turn, ledger }
            }
        } else if protocol::spec_privileged_callback(kind) {
            Stepped {
                step: match protocol::spec_deny_callback(frame) {
                    Err(e) => Err(e),
                    Ok(None) => Ok(StepView::Progress),
                    Ok(Some(reply)) => Ok(
                        StepView::Send { command: reply, sent: SentView::Denial },
                    ),
                },
                turn,
                ledger,
            }
        } else if kind == "agent_end"@ {
            on_agent_end(turn, ledger, frame)
        } else if kind == "agent_start"@ {
            Stepped {
                step: Ok(StepView::Normalize { early: Some(turn.pending_output) }),
                turn: TurnView { agent_started: true, pending_output: seq![], ..turn },
                ledger,
            }
        } else if kind == "command_output"@ && !turn.agent_started {
            on_early_output(turn, ledger, frame, output_limit)
        } else {
            Stepped { step: Ok(StepView::Normalize { early: None }), turn, ledger }
        },
    }
}

// ---------------------------------------------------------------------------
// Events
// ---------------------------------------------------------------------------

/// An event that a frame stands for.
#[derive(Debug)]
pub enum TurnEvent<U> {
    Usage(U),
    Error(String),
    Other,
}

/// The content of a [`TurnEvent`].
pub enum EventView<U> {
    Usage(U),
    Error(Seq<char>),
    Other,
}

impl<U> View for TurnEvent<U> {
    type V = EventView<U>;

    open spec fn view(&self) -> EventView<U> {
        match self {
            TurnEvent::Usage(usage) => EventView::Usage(*usage),
            TurnEvent::Error(message) => EventView::Error(message@),
            TurnEvent::Other => EventView::Other,
        }
    }
}

/// What an event does. The first error is kept, and aborts a turn that is not interrupted yet; every
/// event that is no error is shown.
pub open spec fn spec_on_event<U>(
    turn: TurnView<U>,
    ledger: LedgerView,
    event: EventView<U>,
) -> Stepped<U> {
    match event {
        EventView::Usage(usage) => Stepped {
            step: Ok(StepView::Emit),
            turn: TurnView { usage: Some(usage), ..turn },
            ledger,
        },
        EventView::Error(message) => {
            let kept = TurnView {
                turn_error: match turn.turn_error {
                    Some(first) => Some(first),
                    None => Some(message),
                },
                ..turn
            };
            if turn.interrupted {
                Stepped { step: Ok(StepView::Idle), turn: kept, ledger }
            } else {
                spec_abort(kept, ledger)
            }
        },
        EventView::Other => Stepped { step: Ok(StepView::Emit), turn, ledger },
    }
}

/// How a turn ends.
pub open spec fn spec_conclude<U>(turn: TurnView<U>) -> Result<TurnOutcome<U>, error::ErrorView> {
    match turn.turn_error {
        Some(message) => Err(error::protocol_fault(message)),
        None => Ok(TurnOutcome { interrupted: turn.interrupted, usage: turn.usage }),
    }
}

// ---------------------------------------------------------------------------
// The turn at work
// ---------------------------------------------------------------------------

fn time_passed(since: u64, now: u64, limit: u64) -> (yes: bool)
    ensures
        yes == passed(since, now, limit),
{
    now >= since && now - since >= limit
}

/// Whether a wait for a frame that failed leaves the turn going.
pub fn tolerates(e: &HarnessServerError) -> (yes: bool)
    ensures
        yes == spec_tolerates(e@),
{
    match e {
        HarnessServerError::Protocol(message) => contains(message.as_str(), "timed out"),
        _ => false,
    }
}

impl<U> Turn<U> {
    /// The turn right after its prompt was written.
    pub fn begin(opening: Opening, now: u64) -> (turn: Turn<U>)
        ensures
            turn@ == spec_begin::<U>(opening@, now),
    {
        let turn = Turn {
            prompt_id: opening.prompt_id,
            sequence: opening.sequence,
            started: now,
            last_progress: now,
            prompt_acknowledged: false,
            agent_started: false,
            terminal_seen: false,
            terminal_check: None,
            interrupted: false,
            abort_since: None,
            turn_error: None,
            pending_output: String::new(),
            usage: None,
        };
        assert(turn@ =~= spec_begin::<U>(opening@, now));
        turn
    }

    fn abort(&mut self, ledger: &mut CommandLedger) -> (step: Step)
        requires
            old(ledger).wf(),
        ensures
            final(ledger).wf(),
            ({
                let want = spec_abort(old(self)@, old(ledger)@);
                &&& want.step == Ok::<StepView, error::ErrorView>(step@)
                &&& final(self)@ == want.turn
                &&& final(ledger)@ == want.ledger
            }),
    {
        self.interrupted = true;
        let id = ledger.command_id("abort");
        let command = write_bare_command(id.as_str(), "abort");
        Step::Send { command, sent: Sent::Abort { id } }
    }

    /// Takes a control of the user.
    pub fn on_control(&mut self, ledger: &mut CommandLedger, control: &TurnControl) -> (r: Result<
        Step,
        HarnessServerError,
    >)
        requires
            old(ledger).wf(),
            control@ matches ControlView::Steer(input) ==> prompt::all_encodable(input),
        ensures
            final(ledger).wf(),
            ({
                let want = spec_on_control(old(self)@, old(ledger)@, control@);
                &&& error::agrees(r, want.step)
                &&& final(self)@ == want.turn
                &&& final(ledger)@ == want.ledger
            }),
    {
        if self.interrupted {
            return Ok(Step::Idle);
        }
        if ledger.pending.len() >= MAX_PENDING_CONTROLS {
            return Err(protocol_error("OMP pending control response limit exceeded"));
        }
        match control {
            TurnControl::Interrupt => Ok(self.abort(ledger)),
            TurnControl::Steer(input) => match prompt_content(input.as_slice()) {
                Err(e) => Err(e),
                Ok(content) => {
                    let id = ledger.command_id("steer");
                    let command = write_message_command(id.as_str(), "steer", content);
                    Ok(Step::Send { command, sent: Sent::Steer { id } })
                },
            },
        }
    }

    /// Takes the report that a command was written.
    pub fn sent(&mut self, ledger: &mut CommandLedger, sent: Sent, now: u64)
        requires
            old(ledger).wf(),
        ensures
            final(ledger).wf(),
            (final(self)@, final(ledger)@) == spec_sent(old(self)@, old(ledger)@, sent@, now),
    {
        match sent {
            Sent::Steer { id } => {
                ledger.pending.insert(id, ControlKind::Steer, self.sequence);
            },
            Sent::Abort { id } => {
                ledger.pending.insert(id, ControlKind::Abort, self.sequence);
                self.abort_since = Some(now);
            },
            Sent::TerminalCheck { id } => {
                self.terminal_check = Some(TerminalCheck { id, since: now });
            },
            Sent::Denial => {
                self.last_progress = now;
            },
        }
    }

    /// Notes the time as that of the last progress.
    pub fn note_progress(&mut self, now: u64)
        ensures
            final(self)@ == (TurnView { last_progress: now, ..old(self)@ }),
    {
        self.last_progress = now;
    }

    /// Says what is to be done before the next wait for a frame.
    pub fn verdict(&self, now: u64) -> (verdict: Verdict)
        ensures
            verdict@ == spec_verdict(self@, now),
    {
        if self.terminal_seen && (self.prompt_acknowledged || self.interrupted) {
            return Verdict::Complete;
        }
        let overdue = match self.abort_since {
            Some(since) => time_passed(since, now, ABORT_GRACE),
            None => false,
        };
        if self.interrupted && overdue {
            return Verdict::ForceStop;
        }
        if !self.prompt_acknowledged && time_passed(self.started, now, COMMAND_TIMEOUT) {
            return Verdict::Failed(protocol_error("OMP prompt acknowledgement timed out"));
        }
        let unanswered = match &self.terminal_check {
            Some(check) => time_passed(check.since, now, COMMAND_TIMEOUT),
            None => false,
        };
        if unanswered {
            return Verdict::Failed(protocol_error("OMP terminal state check timed out"));
        }
        if time_passed(self.last_progress, now, TURN_IDLE_TIMEOUT) {
            return Verdict::Failed(
                protocol_error("OMP turn made no transport progress before watchdog expiry"),
            );
        }
        Verdict::Receive
    }

    fn take_output(&mut self) -> (output: String)
        ensures
            output@ == old(self)@.pending_output,
            final(self)@ == (TurnView { pending_output: seq![], ..old(self)@ }),
    {
        let mut output = String::new();
        std::mem::swap(&mut output, &mut self.pending_output);
        assert(self@ =~= (TurnView { pending_output: seq![], ..old(self)@ }));
        output
    }

    fn handle_prompt_response(
        &mut self,
        frame: &Json,
        command: &str,
        success: bool,
        Ghost(ledger): Ghost<LedgerView>,
    ) -> (r: Result<Step, HarnessServerError>)
        ensures
            ({
                let want = on_prompt_response(old(self)@, ledger, frame@, command@, success);
                &&& error::agrees(r, want.step)
                &&& final(self)@ == want.turn
            }),
    {
        if !text_eq(command, "prompt") {
            return Err(protocol_error("OMP prompt response command mismatch"));
        }
        if !success {
            let reason = bounded_error(frame.text("error"));
            let message = concat("OMP prompt failed: ", reason.as_str());
            return Err(protocol_error(message.as_str()));
        }
        self.prompt_acknowledged = true;
        let direct = match frame.nested("data", "agentInvoked") {
            Some(Json::Bool(invoked)) => !*invoked,
            _ => false,
        };
        if direct {
            self.terminal_seen = true;
            let output = self.take_output();
            Ok(Step::Flush { output })
        } else {
            Ok(Step::Progress)
        }
    }

    fn handle_check_response(
        &mut self,
        frame: &Json,
        command: &str,
        success: bool,
        Ghost(ledger): Ghost<LedgerView>,
    ) -> (r: Result<Step, HarnessServerError>)
        ensures
            ({
                let want = on_check_response(old(self)@, ledger, frame@, command@, success);
                &&& error::agrees(r, want.step)
                &&& final(self)@ == want.turn
            }),
    {
        if !text_eq(command, "get_state") || !success {
            return Err(protocol_error("OMP terminal state check failed or mismatched"));
        }
        match frame.nested("data", "isStreaming") {
            Some(Json::Bool(streaming)) => {
                self.terminal_check = None;
                self.terminal_seen = !*streaming;
                if *streaming {
                    Ok(Step::Idle)
                } else {
                    Ok(Step::Progress)
                }
            },
            _ => Err(protocol_error("OMP terminal state omitted isStreaming")),
        }
    }

    fn handle_control_response(
        &self,
        ledger: &mut CommandLedger,
        id: &str,
        command: &str,
        success: bool,
    ) -> (r: Result<Step, HarnessServerError>)
        requires
            old(ledger).wf(),
        ensures
            final(ledger).wf(),
            ({
                let want = on_control_response(self@, old(ledger)@, id@, command@, success);
                &&& error::agrees(r, want.step)
                &&& final(ledger)@ == want.ledger
            }),
    {
        match ledger.pending.remove(id) {
            None => {
                assert(ledger@.pending =~= old(ledger)@.pending);
                let message = concat("OMP emitted response for unknown active-turn id ", id);
                Err(protocol_error(message.as_str()))
            },
            Some((kind, issued)) => {
                if !text_eq(command, kind.name()) || (issued == self.sequence && !success) {
                    let message = concat3("OMP ", kind.name(), " response failed or mismatched");
                    return Err(protocol_error(message.as_str()));
                }
                if issued == self.sequence {
                    Ok(Step::Progress)
                } else {
                    Ok(Step::Idle)
                }
            },
        }
    }

    fn handle_response(&mut self, ledger: &mut CommandLedger, frame: &Json) -> (r: Result<
        Step,
        HarnessServerError,
    >)
        requires
            old(ledger).wf(),
        ensures
            final(ledger).wf(),
            ({
                let want = on_response(old(self)@, old(ledger)@, frame@);
                &&& error::agrees(r, want.step)
                &&& final(self)@ == want.turn
                &&& final(ledger)@ == want.ledger
            }),
    {
        let id = match frame.text("id") {
            Some(id) => id,
            None => {
                return Err(protocol_error("OMP response omitted string id"));
            },
        };
        let command = match frame.text("command") {
            Some(command) => command,
            None => {
                return Err(protocol_error("OMP response omitted command"));
            },
        };
        let success = match frame.flag("success") {
            Some(success) => success,
            None => {
                return Err(protocol_error("OMP response omitted success"));
            },
        };
        if text_eq(id, self.prompt_id.as_str()) {
            return self.handle_prompt_response(frame, command, success, Ghost(ledger@));
        }
        let checking = match &self.terminal_check {
            Some(check) => text_eq(check.id.as_str(), id),
            None => false,
        };
        if checking {
            return self.handle_check_response(frame, command, success, Ghost(ledger@));
        }
        self.handle_control_response(ledger, id, command, success)
    }

    fn handle_agent_end(&self, ledger: &mut CommandLedger, frame: &Json) -> (r: Result<
        Step,
        HarnessServerError,
    >)
        requires
            old(ledger).wf(),
        ensures
            final(ledger).wf(),
            ({
                let want = on_agent_end(self@, old(ledger)@, frame@);
                &&& error::agrees(r, want.step)
                &&& final(ledger)@ == want.ledger
            }),
    {
        let terminal = match frame.flag("isTerminal") {
            Some(terminal) => terminal,
            None => {
                return Err(protocol_error("OMP agent_end omitted boolean isTerminal"));
            },
        };
        if !self.agent_started {
            return Ok(Step::Idle);
        }
        if !terminal {
            return Ok(Step::Progress);
        }
        match &self.terminal_check {
            Some(_) => Ok(Step::Idle),
            None => {
                let id = ledger.command_id("get_state");
                let command = write_bare_command(id.as_str(), "get_state");
                Ok(Step::Send { command, sent: Sent::TerminalCheck { id } })
            },
        }
    }

    fn handle_early_output(
        &mut self,
        frame: &Json,
        output_limit: usize,
        Ghost(ledger): Ghost<LedgerView>,
    ) -> (r: Result<Step, HarnessServerError>)
        ensures
            ({
                let want = on_early_output(old(self)@, ledger, frame@, output_limit);
                &&& error::agrees(r, want.step)
                &&& final(self)@ == want.turn
            }),
    {
        let output = match frame.text("text") {
            Some(output) => output,
            None => {
                return Err(protocol_error("OMP command_output omitted text"));
            },
        };
        let held = self.pending_output.as_str().as_bytes().len();
        let added = output.as_bytes().len();
        if held > output_limit || added > output_limit - held {
            return Err(protocol_error("OMP pending command output exceeds its size limit"));
        }
        self.pending_output = concat(self.pending_output.as_str(), output);
        Ok(Step::Progress)
    }

    /// Takes a frame of the runtime. `output_limit` bounds the output of commands that is kept
    /// before the agent has started, in bytes.
    pub fn on_frame(
        &mut self,
        ledger: &mut CommandLedger,
        frame: &Json,
        output_limit: usize,
    ) -> (r: Result<Step, HarnessServerError>)
        requires
            old(ledger).wf(),
        ensures
            final(ledger).wf(),
            ({
                let want = spec_on_frame(old(self)@, old(ledger)@, frame@, output_limit);
                &&& error::agrees(r, want.step)
                &&& final(self)@ == want.turn
                &&& final(ledger)@ == want.ledger
            }),
    {
        let kind = match frame_type(frame) {
            Ok(kind) => kind,
            Err(e) => {
                return Err(e);
            },
        };
        if text_eq(kind, "response") {
            return self.handle_response(ledger, frame);
        }
        if text_eq(kind, "prompt_result") {
            let direct = option_eq(frame.text("id"), self.prompt_id.as_str()) && match frame.flag(
                "agentInvoked",
            ) {
                Some(invoked) => !invoked,
                None => false,
            };
            if direct {
                self.terminal_seen = true;
                let output = self.take_output();
                return Ok(Step::Flush { output });
            }
            return Ok(Step::Idle);
        }
        if is_privileged_callback(kind) {
            return match deny_callback(frame) {
                Err(e) => Err(e),
                Ok(None) => Ok(Step::Progress),
                Ok(Some(command)) => Ok(Step::Send { command, sent: Sent::Denial }),
            };
        }
        if text_eq(kind, "agent_end") {
            return self.handle_agent_end(ledger, frame);
        }
        if text_eq(kind, "agent_start") {
            self.agent_started = true;
            let output = self.take_output();
            return Ok(Step::Normalize { early: Some(output) });
        }
        if text_eq(kind, "command_output") && !self.agent_started {
            return self.handle_early_output(frame, output_limit, Ghost(ledger@));
        }
        Ok(Step::Normalize { early: None })
    }

    /// Takes an event that a frame stands for.
    pub fn on_event(&mut self, ledger: &mut CommandLedger, event: TurnEvent<U>) -> (step: Step)
        requires
            old(ledger).wf(),
        ensures
            final(ledger).wf(),
            ({
                let want = spec_on_event(old(self)@, old(ledger)@, event@);
                &&& want.step == Ok::<StepView, error::ErrorView>(step@)
                &&& final(self)@ == want.turn
                &&& final(ledger)@ == want.ledger
            }),
    {
        match event {
            TurnEvent::Usage(usage) => {
                self.usage = Some(usage);
                Step::Emit
            },
            TurnEvent::Error(message) => {
                if self.turn_error.is_none() {
                    self.turn_error = Some(message);
                }
                if self.interrupted {
                    Step::Idle
                } else {
                    self.abort(ledger)
                }
            },
            TurnEvent::Other => Step::Emit,
        }
    }

    /// Ends the turn: with the first error that it met, or with its outcome.
    pub fn conclude(self) -> (r: Result<TurnOutcome<U>, HarnessServerError>)
        ensures
            match (r, spec_conclude(self@)) {
                (Ok(outcome), Ok(want)) => outcome == want,
                (Err(e), Err(fault)) => e@ == fault,
                _ => false,
            },
    {
        match self.turn_error {
            Some(message) => Err(protocol_error(message.as_str())),
            None => Ok(TurnOutcome { interrupted: self.interrupted, usage: self.usage }),
        }
    }
}

} // verus!
