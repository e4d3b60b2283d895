//! A session with the runtime: what is kept of it, how one of its commands is answered, and how
//! what its process gives is taken.

use vstd::prelude::*;

use crate::error;
use crate::error::{bounded_error, protocol_error, HarnessKind, HarnessServerError};
use crate::json;
use crate::json::{Fields, Json};
use crate::ledger;
use crate::ledger::{CommandLedger, LedgerView};
use crate::profile::OmpProfile;
use crate::protocol;
use crate::protocol::{
    deny_callback, frame_type, is_privileged_callback, is_state_notification,
};
use crate::text::{concat, concat3, option_eq, text_eq};

verus! {

/// How long the runtime may take to greet, in nanoseconds.
pub const STARTUP_TIMEOUT: u64 = 15_000_000_000;

/// A session with the runtime.
#[derive(Debug)]
pub struct OmpSession {
    pub profile: OmpProfile,
    pub thread_id: String,
    pub ledger: CommandLedger,
    /// The last state that the runtime gave of itself.
    pub state: Json,
}

impl OmpSession {
    pub open spec fn wf(self) -> bool {
        self.profile.wf() && self.ledger.wf()
    }

    /// The session before the runtime was spoken to.
    pub fn new(profile: OmpProfile, thread_id: &str) -> (session: OmpSession)
        requires
            profile.wf(),
        ensures
            session.wf(),
            session.profile == profile,
            session.thread_id@ == thread_id@,
            session.ledger@ == (LedgerView { next_id: 1, pending: Map::empty() }),
            session.ledger@.identified(),
            session.state@ == json::JsonView::Null,
    {
        OmpSession {
            profile,
            thread_id: thread_id.to_owned(),
            ledger: CommandLedger::new(),
            state: Json::Null,
        }
    }

    /// The last state that the runtime gave of itself.
    pub fn state(&self) -> (state: &Json)
        ensures
            state@ == self.state@,
    {
        &self.state
    }
}

/// The provider and the model that a state of the runtime names.
pub open spec fn spec_state_model(state: json::JsonView) -> Result<
    (Seq<char>, Seq<char>),
    error::ErrorView,
> {
    match state.nested("model"@, "provider"@) {
        Some(json::JsonView::Text(provider)) if provider.len() > 0 => match state.nested(
            "model"@,
            "id"@,
        ) {
            Some(json::JsonView::Text(id)) if id.len() > 0 => Ok((provider, id)),
            _ => Err(error::protocol_fault("OMP state omitted effective model id"@)),
        },
        _ => Err(error::protocol_fault("OMP state omitted effective model provider"@)),
    }
}

fn nonempty_nested<'a>(state: &'a Json, outer: &str, inner: &str) -> (r: Option<&'a str>)
    ensures
        match r {
            Some(s) => s@.len() > 0 && state@.nested(outer@, inner@) == Some(
                json::JsonView::Text(s@),
            ),
            None => !(state@.nested(outer@, inner@) matches Some(json::JsonView::Text(s))
                && s.len() > 0),
        },
{
    proof {
        reveal_strlit("");
        assert(""@ =~= Seq::<char>::empty());
    }
    match state.nested(outer, inner) {
        Some(value) => match value {
            Json::Text(s) => {
                assert(s@.len() == 0 <==> s@ =~= ""@);
                if text_eq(s.as_str(), "") {
                    None
                } else {
                    Some(s.as_str())
                }
            },
            _ => None,
        },
        None => None,
    }
}

/// The provider and the model that a state of the runtime names.
pub fn state_model(state: &Json) -> (r: Result<(String, String), HarnessServerError>)
    ensures
        match (r, spec_state_model(state@)) {
            (Ok(pair), Ok(want)) => (pair.0@, pair.1@) == want,
            (Err(e), Err(fault)) => e@ == fault,
            _ => false,
        },
{
    let provider = match nonempty_nested(state, "model", "provider") {
        Some(provider) => provider,
        None => {
            return Err(protocol_error("OMP state omitted effective model provider"));
        },
    };
    let model = match nonempty_nested(state, "model", "id") {
        Some(model) => model,
        None => {
            return Err(protocol_error("OMP state omitted effective model id"));
        },
    };
    Ok((provider.to_owned(), model.to_owned()))
}

// ---------------------------------------------------------------------------
// Commands and their responses
// ---------------------------------------------------------------------------

/// A command whose response is waited for.
#[derive(Debug)]
pub struct AwaitedCommand {
    pub id: String,
    pub name: String,
}

/// The content of an [`AwaitedCommand`].
pub struct AwaitedView {
    pub id: Seq<char>,
    pub name: Seq<char>,
}

impl View for AwaitedCommand {
    type V = AwaitedView;

    open spec fn view(&self) -> AwaitedView {
        AwaitedView { id: self.id@, name: self.name@ }
    }
}

/// The document of a command: its fields, with its identifier and its name.
pub open spec fn command_document(
    fields: Seq<(Seq<char>, json::JsonView)>,
    id: Seq<char>,
    name: Seq<char>,
) -> json::JsonView {
    json::JsonView::Object(
        json::spec_put(
            json::spec_put(fields, "id"@, json::JsonView::Text(id)),
            "type"@,
            json::JsonView::Text(name),
        ),
    )
}

/// Numbers a command and gives the document to write for it.
pub fn begin_command(ledger: &mut CommandLedger, name: &str, fields: Fields) -> (r: (
    AwaitedCommand,
    Json,
))
    requires
        old(ledger).wf(),
    ensures
        final(ledger).wf(),
        final(ledger)@ == old(ledger)@.numbered(),
        r.0@ == (AwaitedView {
            id: ledger::spec_command_id(name@, old(ledger)@.next_id),
            name: name@,
        }),
        r.1@ == command_document(fields@, r.0@.id, name@),
{
    let id = ledger.command_id(name);
    let document = fields.put("id", Json::Text(id.clone())).put(
        "type",
        Json::Text(name.to_owned()),
    ).object();
    (AwaitedCommand { id, name: name.to_owned() }, document)
}

/// The document of a command names it by identifier and by name, whatever its fields, and keeps every
/// other field.
pub proof fn law_command_document_names_itself(
    fields: Seq<(Seq<char>, json::JsonView)>,
    id: Seq<char>,
    name: Seq<char>,
    other: Seq<char>,
)
    ensures
        command_document(fields, id, name).text("id"@) == Some(id),
        command_document(fields, id, name).text("type"@) == Some(name),
        other != "id"@ && other != "type"@ ==> command_document(fields, id, name).get(other)
            == json::lookup(fields, other),
{
    reveal_strlit("id");
    reveal_strlit("type");
    assert("id"@.len() == 2);
    assert("type"@.len() == 4);
    let numbered = json::spec_put(fields, "id"@, json::JsonView::Text(id));
    json::lemma_put(fields, "id"@, json::JsonView::Text(id));
    json::lemma_put(numbered, "type"@, json::JsonView::Text(name));
}

/// What a frame means for the wait for a response.
#[derive(Debug)]
pub enum CommandStep {
    /// Wait on.
    Wait,
    /// Write the reply, then wait on.
    Reply(Json),
    /// The frame is the response.
    Done,
}

/// The content of a [`CommandStep`].
pub enum CommandStepView {
    Wait,
    Reply(json::JsonView),
    Done,
}

impl View for CommandStep {
    type V = CommandStepView;

    open spec fn view(&self) -> CommandStepView {
        match self {
            CommandStep::Wait => CommandStepView::Wait,
            CommandStep::Reply(reply) => CommandStepView::Reply(reply@),
            CommandStep::Done => CommandStepView::Done,
        }
    }
}

/// What a response means for the wait. That of a control which was still to come is taken off the
/// ledger; any other must be the successful one to the command.
pub open spec fn on_awaited_response(
    awaited: AwaitedView,
    ledger: LedgerView,
    frame: json::JsonView,
) -> (Result<CommandStepView, error::ErrorView>, LedgerView) {
    let id = frame.text("id"@);
    if id matches Some(id) && ledger.pending.dom().contains(id) {
        let rest = ledger.answered(id->Some_0);
        let (kind, _) = ledger.pending[id->Some_0];
        if frame.text("command"@) != Some(kind.spec_name()) || frame.flag("success"@) is None {
            (Err(error::protocol_fault("OMP late control response mismatched"@)), rest)
        } else {
            (Ok(CommandStepView::Wait), rest)
        }
    } else if id != Some(awaited.id) {
        (
            Err(
                error::protocol_fault(
                    "OMP "@ + awaited.name + " received response for unexpected id"@,
                ),
            ),
            ledger,
        )
    } else if frame.text("command"@) != Some(awaited.name) {
        (
            Err(error::protocol_fault("OMP "@ + awaited.name + " response command mismatch"@)),
            ledger,
        )
    } else if frame.flag("success"@) != Some(true) {
        (
            Err(
                error::protocol_fault(
                    "OMP "@ + awaited.name + " failed: "@ + error::spec_bounded_error(
                        frame.text("error"@),
                    ),
                ),
            ),
            ledger,
        )
    } else {
        (Ok(CommandStepView::Done), ledger)
    }
}

/// What a frame means for the wait for a response.
pub open spec fn spec_on_command_frame(
    awaited: AwaitedView,
    ledger: LedgerView,
    frame: json::JsonView,
) -> (Result<CommandStepView, error::ErrorView>, LedgerView) {
    match protocol::spec_frame_type(frame) {
        Err(e) => (Err(e), ledger),
        Ok(kind) => if kind == "response"@ {
            on_awaited_response(awaited, ledger, frame)
        } else if protocol::spec_privileged_callback(kind) {
            (
                match protocol::spec_deny_callback(frame) {
                    Err(e) => Err(e),
                    Ok(None) => Ok(CommandStepView::Wait),
                    Ok(Some(reply)) => Ok(CommandStepView::Reply(reply)),
                },
                ledger,
            )
        } else if kind == "agent_end"@ {
            if frame.flag("isTerminal"@) is None {
                (Err(error::protocol_fault("OMP agent_end omitted boolean isTerminal"@)), ledger)
            } else {
                (Ok(CommandStepView::Wait), ledger)
            }
        } else if !protocol::spec_state_notification(kind) {
            (
                Err(
                    error::protocol_fault(
                        "OMP emitted semantic frame "@ + kind + " while awaiting "@ + awaited.name,
                    ),
                ),
                ledger,
            )
        } else {
            (Ok(CommandStepView::Wait), ledger)
        },
    }
}

fn handle_awaited_response(awaited: &AwaitedCommand, ledger: &mut CommandLedger, frame: &Json) -> (r:
    Result<CommandStep, HarnessServerError>)
    requires
        old(ledger).wf(),
    ensures
        final(ledger).wf(),
        ({
            let want = on_awaited_response(awaited@, old(ledger)@, frame@);
            error::agrees(r, want.0) && final(ledger)@ == want.1
        }),
{
    let response_id = frame.text("id");
    let control = match response_id {
        Some(id) => ledger.pending.remove(id),
        None => None,
    };
    if let Some((kind, _)) = control {
        let complete = match frame.flag("success") {
            Some(_) => true,
            None => false,
        };
        if !option_eq(frame.text("command"), kind.name()) || !complete {
            return Err(protocol_error("OMP late control response mismatched"));
        }
        return Ok(CommandStep::Wait);
    }
    assert(ledger@.pending =~= old(ledger)@.pending);
    let name = awaited.name.as_str();
    if !option_eq(response_id, awaited.id.as_str()) {
        let message = concat3("OMP ", name, " received response for unexpected id");
        return Err(protocol_error(message.as_str()));
    }
    if !option_eq(frame.text("command"), name) {
        let message = concat3("OMP ", name, " response command mismatch");
        return Err(protocol_error(message.as_str()));
    }
    let success = match frame.flag("success") {
        Some(success) => success,
        None => false,
    };
    if !success {
        let reason = bounded_error(frame.text("error"));
        let mut message = concat3("OMP ", name, " failed: ");
        message.append(reason.as_str());
        return Err(protocol_error(message.as_str()));
    }
    Ok(CommandStep::Done)
}

/// Says what a frame means for the wait for a response.
pub fn on_command_frame(awaited: &AwaitedCommand, ledger: &mut CommandLedger, frame: &Json) -> (r:
    Result<CommandStep, HarnessServerError>)
    requires
        old(ledger).wf(),
    ensures
        final(ledger).wf(),
        ({
            let want = spec_on_command_frame(awaited@, old(ledger)@, frame@);
            error::agrees(r, want.0) && final(ledger)@ == want.1
        }),
{
    let kind = match frame_type(frame) {
        Ok(kind) => kind,
        Err(e) => {
            return Err(e);
        },
    };
    if text_eq(kind, "response") {
        return handle_awaited_response(awaited, ledger, frame);
    }
    if is_privileged_callback(kind) {
        return match deny_callback(frame) {
            Err(e) => Err(e),
            Ok(None) => Ok(CommandStep::Wait),
            Ok(Some(reply)) => Ok(CommandStep::Reply(reply)),
        };
    }
    if text_eq(kind, "agent_end") {
        return match frame.flag("isTerminal") {
            None => Err(protocol_error("OMP agent_end omitted boolean isTerminal")),
            Some(_) => Ok(CommandStep::Wait),
        };
    }
    if !is_state_notification(kind) {
        let mut message = concat3("OMP emitted semantic frame ", kind, " while awaiting ");
        message.append(awaited.name.as_str());
        return Err(protocol_error(message.as_str()));
    }
    Ok(CommandStep::Wait)
}

/// A wait ends well only with the successful response to the very command that was sent.
pub proof fn law_only_the_response_ends_the_wait(
    awaited: AwaitedView,
    ledger: LedgerView,
    frame: json::JsonView,
)
    ensures
        spec_on_command_frame(awaited, ledger, frame).0 matches Ok(CommandStepView::Done) ==> {
            &&& frame.text("type"@) == Some("response"@)
            &&& frame.text("id"@) == Some(awaited.id)
            &&& frame.text("command"@) == Some(awaited.name)
            &&& frame.flag("success"@) == Some(true)
        },
{
}

/// The successful response to a command that is no control ends the wait for it.
pub proof fn law_the_response_ends_the_wait(
    awaited: AwaitedView,
    ledger: LedgerView,
    frame: json::JsonView,
)
    requires
        ledger::is_command(awaited.id, awaited.name),
        awaited.name != "steer"@,
        awaited.name != "abort"@,
        ledger.identified(),
        frame.text("type"@) == Some("response"@),
        frame.text("id"@) == Some(awaited.id),
        frame.text("command"@) == Some(awaited.name),
        frame.flag("success"@) == Some(true),
    ensures
        spec_on_command_frame(awaited, ledger, frame) == (
            Ok::<CommandStepView, error::ErrorView>(CommandStepView::Done),
            ledger,
        ),
{
    if ledger.pending.dom().contains(awaited.id) {
        ledger::lemma_identifier_tells_name(
            awaited.id,
            awaited.name,
            ledger.pending[awaited.id].0.spec_name(),
        );
    }
}

/// A wait never adds to the controls that are still to be answered, and a late response to one
/// takes just that one off, whatever came of the control. The others keep their identifiers.
pub proof fn law_a_wait_only_settles_controls(
    awaited: AwaitedView,
    ledger: LedgerView,
    frame: json::JsonView,
)
    ensures
        ({
            let after = spec_on_command_frame(awaited, ledger, frame).1;
            &&& after.next_id == ledger.next_id
            &&& after == ledger || (frame.text("id"@) matches Some(id) && after == ledger.answered(
                id,
            ))
            &&& ledger.identified() ==> after.identified()
        }),
{
}

// ---------------------------------------------------------------------------
// Waiting for frames
// ---------------------------------------------------------------------------

/// What has passed since a time, on a clock that does not run backwards.
pub open spec fn elapsed(since: u64, now: u64) -> int {
    if now >= since {
        now - since
    } else {
        0
    }
}

/// How long the next wait for a frame may last, when all the frames that a wait begun at `since`
/// takes share the time `timeout`.
pub open spec fn spec_remaining(since: u64, timeout: u64, now: u64) -> Result<
    u64,
    error::ErrorView,
> {
    if elapsed(since, now) >= timeout {
        Err(error::protocol_fault("OMP frame wait timed out"@))
    } else {
        Ok((timeout - elapsed(since, now)) as u64)
    }
}

/// Says how long the next wait for a frame may last.
pub fn remaining_wait(since: u64, timeout: u64, now: u64) -> (r: Result<u64, HarnessServerError>)
    ensures
        error::agrees(r, spec_remaining(since, timeout, now)),
{
    let gone: u64 = if now >= since {
        now - since
    } else {
        0
    };
    if gone >= timeout {
        return Err(protocol_error("OMP frame wait timed out"));
    }
    Ok(timeout - gone)
}

/// However many frames come, the waits for them end together: what remains at any time reaches just
/// to the one deadline, and at the deadline nothing remains.
pub proof fn law_one_deadline(since: u64, timeout: u64, now: u64)
    requires
        since <= now,
    ensures
        spec_remaining(since, timeout, now) matches Ok(remaining) ==> now + remaining == since
            + timeout && remaining > 0,
        spec_remaining(since, timeout, now) is Err <==> now >= since + timeout,
{
}

/// What the process of the runtime gave.
#[derive(Debug)]
pub enum Received {
    /// A line, and what it decoded to: a frame, a part of one, or a breach of the protocol.
    Line(Result<Option<Json>, HarnessServerError>),
    /// Reading its output failed.
    StdoutError(String),
    /// Its output ended: with its exit status where it has exited, and the end of what it wrote as
    /// errors.
    Eof { status: Result<Option<String>, String>, stderr: String },
    /// Nothing in time.
    Timeout,
    /// The reader of its output is gone.
    Disconnected { stderr: String },
}

/// The content of a [`Received`].
pub enum ReceivedView {
    Line(Result<Option<json::JsonView>, error::ErrorView>),
    StdoutError(Seq<char>),
    Eof { status: Result<Option<Seq<char>>, Seq<char>>, stderr: Seq<char> },
    Timeout,
    Disconnected { stderr: Seq<char> },
}

impl View for Received {
    type V = ReceivedView;

    open spec fn view(&self) -> ReceivedView {
        match self {
            Received::Line(line) => ReceivedView::Line(
                match line {
                    Ok(Some(frame)) => Ok(Some(frame@)),
                    Ok(None) => Ok(None),
                    Err(e) => Err(e@),
                },
            ),
            Received::StdoutError(fault) => ReceivedView::StdoutError(fault@),
            Received::Eof { status, stderr } => ReceivedView::Eof {
                status: match status {
                    Ok(Some(status)) => Ok(Some(status@)),
                    Ok(None) => Ok(None),
                    Err(fault) => Err(fault@),
                },
                stderr: stderr@,
            },
            Received::Timeout => ReceivedView::Timeout,
            Received::Disconnected { stderr } => ReceivedView::Disconnected { stderr: stderr@ },
        }
    }
}

/// Whether a frame reports that the runtime could not store its session.
pub open spec fn persistence_failure(frame: json::JsonView) -> bool {
    &&& frame.text("type"@) == Some("notice"@)
    &&& frame.text("level"@) == Some("error"@)
    &&& frame.text("source"@) == Some("session-persistence"@)
}

/// The frame that was received, if a whole one was.
pub open spec fn spec_take_received(received: ReceivedView) -> Result<
    Option<json::JsonView>,
    error::ErrorView,
> {
    match received {
        ReceivedView::Line(Err(e)) => Err(e),
        ReceivedView::Line(Ok(None)) => Ok(None),
        ReceivedView::Line(Ok(Some(frame))) => if persistence_failure(frame) {
            Err(error::protocol_fault("OMP session persistence failed"@))
        } else {
            Ok(Some(frame))
        },
        ReceivedView::StdoutError(fault) => Err(error::ErrorView::Io(fault)),
        ReceivedView::Eof { status, stderr } => match status {
            Err(fault) => Err(error::ErrorView::Io(fault)),
            Ok(Some(status)) => Err(
                error::ErrorView::HarnessExited { kind: HarnessKind::Omp, status, stderr },
            ),
            Ok(None) => Err(error::protocol_fault("OMP stdout closed unexpectedly"@ + stderr)),
        },
        ReceivedView::Timeout => Err(error::protocol_fault("OMP frame wait timed out"@)),
        ReceivedView::Disconnected { stderr } => Err(
            error::protocol_fault("OMP stdout reader disconnected"@ + stderr),
        ),
    }
}

/// Takes what the process of the runtime gave.
pub fn take_received(received: Received) -> (r: Result<Option<Json>, HarnessServerError>)
    ensures
        protocol::same_reply(r, spec_take_received(received@)),
{
    match received {
        Received::Line(Err(e)) => Err(e),
        Received::Line(Ok(None)) => Ok(None),
        Received::Line(Ok(Some(frame))) => {
            if option_eq(frame.text("type"), "notice") && option_eq(frame.text("level"), "error")
                && option_eq(frame.text("source"), "session-persistence") {
                return Err(protocol_error("OMP session persistence failed"));
            }
            Ok(Some(frame))
        },
        Received::StdoutError(fault) => Err(HarnessServerError::Io(fault)),
        Received::Eof { status, stderr } => match status {
            Err(fault) => Err(HarnessServerError::Io(fault)),
            Ok(Some(status)) => Err(
                HarnessServerError::HarnessExited { kind: HarnessKind::Omp, status, stderr },
            ),
            Ok(None) => {
                let message = concat("OMP stdout closed unexpectedly", stderr.as_str());
                Err(protocol_error(message.as_str()))
            },
        },
        Received::Timeout => Err(protocol_error("OMP frame wait timed out")),
        Received::Disconnected { stderr } => {
            let message = concat("OMP stdout reader disconnected", stderr.as_str());
            Err(protocol_error(message.as_str()))
        },
    }
}

/// A wait for the response to a command, which all the frames that it takes must keep to.
#[derive(Debug)]
pub struct CommandWait {
    pub awaited: AwaitedCommand,
    pub since: u64,
    pub timeout: u64,
}

/// What is to be done next in a wait for a response.
#[derive(Debug)]
pub enum WaitStep {
    /// Wait on.
    Wait,
    /// Write the reply, then wait on.
    Reply(Json),
    /// The response has come.
    Done(Json),
}

/// The content of a [`WaitStep`].
pub enum WaitStepView {
    Wait,
    Reply(json::JsonView),
    Done(json::JsonView),
}

impl View for WaitStep {
    type V = WaitStepView;

    open spec fn view(&self) -> WaitStepView {
        match self {
            WaitStep::Wait => WaitStepView::Wait,
            WaitStep::Reply(reply) => WaitStepView::Reply(reply@),
            WaitStep::Done(response) => WaitStepView::Done(response@),
        }
    }
}

/// What follows what the process gave during a wait for a response.
pub open spec fn spec_wait_received(
    awaited: AwaitedView,
    ledger: LedgerView,
    received: ReceivedView,
) -> (Result<WaitStepView, error::ErrorView>, LedgerView) {
    match spec_take_received(received) {
        Err(e) => (Err(e), ledger),
        Ok(None) => (Ok(WaitStepView::Wait), ledger),
        Ok(Some(frame)) => {
            let (step, after) = spec_on_command_frame(awaited, ledger, frame);
            (
                match step {
                    Err(e) => Err(e),
                    Ok(CommandStepView::Wait) => Ok(WaitStepView::Wait),
                    Ok(CommandStepView::Reply(reply)) => Ok(WaitStepView::Reply(reply)),
                    Ok(CommandStepView::Done) => Ok(WaitStepView::Done(frame)),
                },
                after,
            )
        },
    }
}

impl CommandWait {
    /// The wait that begins once a command was written.
    pub fn begin(awaited: AwaitedCommand, timeout: u64, now: u64) -> (wait: CommandWait)
        ensures
            wait == (CommandWait { awaited, since: now, timeout }),
    {
        CommandWait { awaited, since: now, timeout }
    }

    /// Says how long to wait for the next frame.
    pub fn remaining(&self, now: u64) -> (r: Result<u64, HarnessServerError>)
        ensures
            error::agrees(r, spec_remaining(self.since, self.timeout, now)),
    {
        remaining_wait(self.since, self.timeout, now)
    }

    /// Takes what the process gave.
    pub fn received(&self, ledger: &mut CommandLedger, received: Received) -> (r: Result<
        WaitStep,
        HarnessServerError,
    >)
        requires
            old(ledger).wf(),
        ensures
            final(ledger).wf(),
            ({
                let want = spec_wait_received(self.awaited@, old(ledger)@, received@);
                error::agrees(r, want.0) && final(ledger)@ == want.1
            }),
    {
        match take_received(received) {
            Err(e) => Err(e),
            Ok(None) => Ok(WaitStep::Wait),
            Ok(Some(frame)) => match on_command_frame(&self.awaited, ledger, &frame) {
                Err(e) => Err(e),
                Ok(CommandStep::Wait) => Ok(WaitStep::Wait),
                Ok(CommandStep::Reply(reply)) => Ok(WaitStep::Reply(reply)),
                Ok(CommandStep::Done) => Ok(WaitStep::Done(frame)),
            },
        }
    }
}

} // verus!
