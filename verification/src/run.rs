//! Running a turn: which control, frame or event is taken when, and what is done between them.
//!
//! Each step says what is to be done next and carries what waits for it. Whoever carries the steps
//! out may fail at one, and with that the turn fails.

use vstd::prelude::*;

use crate::error;
use crate::error::{protocol_error, HarnessServerError};
use crate::json;
use crate::json::Json;
use crate::ledger;
use crate::ledger::{CommandLedger, LedgerView};
use crate::prompt;
use crate::session;
use crate::text;
use crate::turn;
use crate::turn::{
    tolerates, ControlView, EventView, Sent, SentView, Step, StepView, Turn, TurnControl,
    TurnEvent, TurnOutcome, TurnView, Verdict,
};

verus! {

/// What follows once a command is written.
#[derive(Debug)]
pub enum AfterWrite<U> {
    Poll,
    Events(Vec<TurnEvent<U>>),
}

/// What follows once the output of commands is shown.
#[derive(Debug)]
pub enum AfterOutput {
    Settle,
    Normalize(Json),
}

/// A turn that waits for a control of the user, if there is one.
#[derive(Debug)]
pub struct AwaitControl<U> {
    pub turn: Turn<U>,
}

/// A turn that waits for a command to be written.
#[derive(Debug)]
pub struct AwaitWrite<U> {
    pub turn: Turn<U>,
    pub sent: Sent,
    pub after: AfterWrite<U>,
}

/// A turn that waits for a frame.
#[derive(Debug)]
pub struct AwaitFrame<U> {
    pub turn: Turn<U>,
}

/// A turn that waits for the output of commands to be shown.
#[derive(Debug)]
pub struct AwaitOutput<U> {
    pub turn: Turn<U>,
    pub after: AfterOutput,
}

/// A turn that waits for the events that a frame stands for.
#[derive(Debug)]
pub struct AwaitEvents<U> {
    pub turn: Turn<U>,
}

/// A turn that waits for an event to be shown, with the events behind it.
#[derive(Debug)]
pub struct AwaitShown<U> {
    pub turn: Turn<U>,
    pub rest: Vec<TurnEvent<U>>,
}

/// A turn that waits for its result to be announced, or for the runtime to be stopped.
#[derive(Debug)]
pub struct AwaitEnd<U> {
    pub turn: Turn<U>,
}

/// What is to be done next.
#[derive(Debug)]
pub enum RunStep<U> {
    /// Ask for a control of the user.
    Poll { control: AwaitControl<U> },
    /// Write the command.
    Write { command: Json, write: AwaitWrite<U> },
    /// Wait a moment for a frame.
    Receive { frame: AwaitFrame<U> },
    /// Show the output of commands, as the whole answer or as what came before it.
    Output { output: String, whole: bool, show: AwaitOutput<U> },
    /// Find the events that the frame stands for.
    Normalize { source: Json, events: AwaitEvents<U> },
    /// Show the event that was handed in last.
    Show { shown: AwaitShown<U> },
    /// Announce that the turn has its result.
    Announce { end: AwaitEnd<U> },
    /// Stop the runtime.
    Stop { end: AwaitEnd<U> },
}

/// The content of an [`AfterWrite`].
pub enum AfterWriteView<U> {
    Poll,
    Events(Seq<EventView<U>>),
}

/// The content of an [`AfterOutput`].
pub enum AfterOutputView {
    Settle,
    Normalize(json::JsonView),
}

/// The content of a [`RunStep`].
pub enum RunView<U> {
    Poll { turn: TurnView<U> },
    Write {
        turn: TurnView<U>,
        command: json::JsonView,
        sent: SentView,
        after: AfterWriteView<U>,
    },
    Receive { turn: TurnView<U> },
    Output { turn: TurnView<U>, output: Seq<char>, whole: bool, then: AfterOutputView },
    Normalize { turn: TurnView<U>, source: json::JsonView },
    Show { turn: TurnView<U>, rest: Seq<EventView<U>> },
    Announce { turn: TurnView<U> },
    Stop { turn: TurnView<U> },
}

/// The content of a list of events.
pub open spec fn occurrences<U>(events: Seq<TurnEvent<U>>) -> Seq<EventView<U>> {
    events.map_values(|event: TurnEvent<U>| event@)
}

impl<U> View for AfterWrite<U> {
    type V = AfterWriteView<U>;

    open spec fn view(&self) -> AfterWriteView<U> {
        match self {
            AfterWrite::Poll => AfterWriteView::Poll,
            AfterWrite::Events(events) => AfterWriteView::Events(occurrences(events@)),
        }
    }
}

impl View for AfterOutput {
    type V = AfterOutputView;

    open spec fn view(&self) -> AfterOutputView {
        match self {
            AfterOutput::Settle => AfterOutputView::Settle,
            AfterOutput::Normalize(source) => AfterOutputView::Normalize(source@),
        }
    }
}

impl<U> View for RunStep<U> {
    type V = RunView<U>;

    open spec fn view(&self) -> RunView<U> {
        match self {
            RunStep::Poll { control } => RunView::Poll { turn: control.turn@ },
            RunStep::Write { command, write } => RunView::Write {
                turn: write.turn@,
                command: command@,
                sent: write.sent@,
                after: write.after@,
            },
            RunStep::Receive { frame } => RunView::Receive { turn: frame.turn@ },
            RunStep::Output { output, whole, show } => RunView::Output {
                turn: show.turn@,
                output: output@,
                whole: *whole,
                then: show.after@,
            },
            RunStep::Normalize { source, events } => RunView::Normalize {
                turn: events.turn@,
                source: source@,
            },
            RunStep::Show { shown } => RunView::Show {
                turn: shown.turn@,
                rest: occurrences(shown.rest@),
            },
            RunStep::Announce { end } => RunView::Announce { turn: end.turn@ },
            RunStep::Stop { end } => RunView::Stop { turn: end.turn@ },
        }
    }
}

// ---------------------------------------------------------------------------
// What follows what
// ---------------------------------------------------------------------------

/// The next step, or the error that ends the turn.
pub type Next<U> = Result<RunView<U>, error::ErrorView>;

/// The turn with the time noted as that of the last progress.
pub open spec fn progressed<U>(turn: TurnView<U>, now: u64) -> TurnView<U> {
    TurnView { last_progress: now, ..turn }
}

/// What follows once no control is left: the end of the turn, or the wait for a frame. An error that
/// the turn met is returned in place of the announcement of its result.
pub open spec fn spec_judge<U>(turn: TurnView<U>, now: u64) -> Next<U> {
    match turn::spec_verdict(turn, now) {
        turn::VerdictView::Complete => match turn::spec_conclude(turn) {
            Err(e) => Err(e),
            Ok(_) => Ok(RunView::Announce { turn }),
        },
        turn::VerdictView::ForceStop => Ok(RunView::Stop { turn }),
        turn::VerdictView::Failed(e) => Err(e),
        turn::VerdictView::Receive => Ok(RunView::Receive { turn }),
    }
}

/// What follows the question for a control. Controls are taken until there is none.
pub open spec fn spec_after_poll<U>(
    turn: TurnView<U>,
    ledger: LedgerView,
    control: Option<ControlView>,
    now: u64,
) -> (Next<U>, LedgerView) {
    match control {
        None => (spec_judge(turn, now), ledger),
        Some(control) => {
            let taken = turn::spec_on_control(turn, ledger, control);
            (
                match taken.step {
                    Err(e) => Err(e),
                    Ok(StepView::Send { command, sent }) => Ok(
                        RunView::Write {
                            turn: taken.turn,
                            command,
                            sent,
                            after: AfterWriteView::Poll,
                        },
                    ),
                    Ok(_) => Ok(RunView::Poll { turn: taken.turn }),
                },
                taken.ledger,
            )
        },
    }
}

/// What follows a frame, or a wait that brought none.
pub open spec fn spec_after_wait<U>(
    turn: TurnView<U>,
    ledger: LedgerView,
    received: Result<Option<json::JsonView>, error::ErrorView>,
    output_limit: usize,
    now: u64,
) -> (Next<U>, LedgerView) {
    match received {
        Ok(None) => (Ok(RunView::Poll { turn }), ledger),
        Err(e) => if turn::spec_tolerates(e) {
            (Ok(RunView::Poll { turn }), ledger)
        } else {
            (Err(e), ledger)
        },
        Ok(Some(frame)) => {
            let taken = turn::spec_on_frame(turn, ledger, frame, output_limit);
            (
                match taken.step {
                    Err(e) => Err(e),
                    Ok(StepView::Idle) => Ok(RunView::Poll { turn: taken.turn }),
                    Ok(StepView::Progress) => Ok(
                        RunView::Poll { turn: progressed(taken.turn, now) },
                    ),
                    Ok(StepView::Send { command, sent }) => Ok(
                        RunView::Write {
                            turn: taken.turn,
                            command,
                            sent,
                            after: AfterWriteView::Poll,
                        },
                    ),
                    Ok(StepView::Flush { output }) => Ok(
                        RunView::Output {
                            turn: taken.turn,
                            output,
                            whole: true,
                            then: AfterOutputView::Settle,
                        },
                    ),
                    Ok(StepView::Normalize { early: Some(output) }) => Ok(
                        RunView::Output {
                            turn: taken.turn,
                            output,
                            whole: false,
                            then: AfterOutputView::Normalize(frame),
                        },
                    ),
                    Ok(StepView::Normalize { early: None }) => Ok(
                        RunView::Normalize { turn: taken.turn, source: frame },
                    ),
                    Ok(StepView::Emit) => Ok(RunView::Poll { turn: taken.turn }),
                },
                taken.ledger,
            )
        },
    }
}

/// What follows while events are left: each is shown, or withheld, or met with an abort, and behind
/// the last one progress is noted.
pub open spec fn spec_next_event<U>(
    turn: TurnView<U>,
    ledger: LedgerView,
    events: Seq<EventView<U>>,
    now: u64,
) -> (RunView<U>, LedgerView)
    decreases events.len(),
{
    if events.len() == 0 {
        (RunView::Poll { turn: progressed(turn, now) }, ledger)
    } else {
        let taken = turn::spec_on_event(turn, ledger, events[0]);
        let rest = events.skip(1);
        match taken.step {
            Ok(StepView::Emit) => (RunView::Show { turn: taken.turn, rest }, taken.ledger),
            Ok(StepView::Send { command, sent }) => (
                RunView::Write {
                    turn: taken.turn,
                    command,
                    sent,
                    after: AfterWriteView::Events(rest),
                },
                taken.ledger,
            ),
            _ => spec_next_event(taken.turn, taken.ledger, rest, now),
        }
    }
}

/// What follows a command that was written.
pub open spec fn spec_after_write<U>(
    turn: TurnView<U>,
    ledger: LedgerView,
    sent: SentView,
    after: AfterWriteView<U>,
    now: u64,
) -> (RunView<U>, LedgerView) {
    let (turn, ledger) = turn::spec_sent(turn, ledger, sent, now);
    match after {
        AfterWriteView::Poll => (RunView::Poll { turn }, ledger),
        AfterWriteView::Events(rest) => spec_next_event(turn, ledger, rest, now),
    }
}

/// What follows once the output of commands is shown.
pub open spec fn spec_after_output<U>(
    turn: TurnView<U>,
    then: AfterOutputView,
    now: u64,
) -> RunView<U> {
    match then {
        AfterOutputView::Settle => RunView::Poll { turn: progressed(turn, now) },
        AfterOutputView::Normalize(source) => RunView::Normalize { turn, source },
    }
}

// ---------------------------------------------------------------------------
// The steps
// ---------------------------------------------------------------------------

/// Whether a result carries a step that a specification asks for.
pub open spec fn steps<U>(got: Result<RunStep<U>, HarnessServerError>, want: Next<U>) -> bool {
    match (got, want) {
        (Ok(step), Ok(content)) => step@ == content,
        (Err(e), Err(fault)) => e@ == fault,
        _ => false,
    }
}

impl<U> Turn<U> {
    /// The first step of a turn whose prompt was written.
    pub fn run(self) -> (step: RunStep<U>)
        ensures
            step@ == (RunView::Poll { turn: self@ }),
    {
        RunStep::Poll { control: AwaitControl { turn: self } }
    }
}

fn judge<U>(turn: Turn<U>, now: u64) -> (r: Result<RunStep<U>, HarnessServerError>)
    ensures
        steps(r, spec_judge(turn@, now)),
{
    match turn.verdict(now) {
        Verdict::Complete => {
            if let Some(message) = &turn.turn_error {
                return Err(protocol_error(message.as_str()));
            }
            Ok(RunStep::Announce { end: AwaitEnd { turn } })
        },
        Verdict::ForceStop => Ok(RunStep::Stop { end: AwaitEnd { turn } }),
        Verdict::Failed(e) => Err(e),
        Verdict::Receive => Ok(RunStep::Receive { frame: AwaitFrame { turn } }),
    }
}

impl<U> AwaitControl<U> {
    /// Takes a control of the user, or that there is none.
    pub fn polled(
        self,
        ledger: &mut CommandLedger,
        control: Option<&TurnControl>,
        now: u64,
    ) -> (r: Result<RunStep<U>, HarnessServerError>)
        requires
            old(ledger).wf(),
            control matches Some(control) ==> (control@ matches ControlView::Steer(input)
                ==> prompt::all_encodable(input)),
        ensures
            final(ledger).wf(),
            ({
                let want = spec_after_poll(
                    self.turn@,
                    old(ledger)@,
                    match control {
                        Some(control) => Some(control@),
                        None => None,
                    },
                    now,
                );
                steps(r, want.0) && final(ledger)@ == want.1
            }),
    {
        let mut turn = self.turn;
        match control {
            None => judge(turn, now),
            Some(control) => match turn.on_control(ledger, control) {
                Err(e) => Err(e),
                Ok(Step::Send { command, sent }) => Ok(
                    RunStep::Write {
                        command,
                        write: AwaitWrite { turn, sent, after: AfterWrite::Poll },
                    },
                ),
                Ok(_) => Ok(RunStep::Poll { control: AwaitControl { turn } }),
            },
        }
    }
}

impl<U> AwaitFrame<U> {
    /// Takes a frame, or what came of a wait that brought none.
    pub fn received(
        self,
        ledger: &mut CommandLedger,
        received: Result<Option<Json>, HarnessServerError>,
        output_limit: usize,
        now: u64,
    ) -> (r: Result<RunStep<U>, HarnessServerError>)
        requires
            old(ledger).wf(),
        ensures
            final(ledger).wf(),
            ({
                let want = spec_after_wait(
                    self.turn@,
                    old(ledger)@,
                    match received {
                        Ok(Some(frame)) => Ok(Some(frame@)),
                        Ok(None) => Ok(None),
                        Err(e) => Err(e@),
                    },
                    output_limit,
                    now,
                );
                steps(r, want.0) && final(ledger)@ == want.1
            }),
    {
        let mut turn = self.turn;
        let frame = match received {
            Ok(Some(frame)) => frame,
            Ok(None) => {
                return Ok(RunStep::Poll { control: AwaitControl { turn } });
            },
            Err(e) => {
                if tolerates(&e) {
                    return Ok(RunStep::Poll { control: AwaitControl { turn } });
                }
                return Err(e);
            },
        };
        match turn.on_frame(ledger, &frame, output_limit) {
            Err(e) => Err(e),
            Ok(Step::Idle) => Ok(RunStep::Poll { control: AwaitControl { turn } }),
            Ok(Step::Progress) => {
                turn.note_progress(now);
                Ok(RunStep::Poll { control: AwaitControl { turn } })
            },
            Ok(Step::Send { command, sent }) => Ok(
                RunStep::Write {
                    command,
                    write: AwaitWrite { turn, sent, after: AfterWrite::Poll },
                },
            ),
            Ok(Step::Flush { output }) => Ok(
                RunStep::Output {
                    output,
                    whole: true,
                    show: AwaitOutput { turn, after: AfterOutput::Settle },
                },
            ),
            Ok(Step::Normalize { early: Some(output) }) => Ok(
                RunStep::Output {
                    output,
                    whole: false,
                    show: AwaitOutput { turn, after: AfterOutput::Normalize(frame) },
                },
            ),
            Ok(Step::Normalize { early: None }) => Ok(
                RunStep::Normalize { source: frame, events: AwaitEvents { turn } },
            ),
            Ok(Step::Emit) => Ok(RunStep::Poll { control: AwaitControl { turn } }),
        }
    }
}

fn next_event<U>(
    first: Turn<U>,
    ledger: &mut CommandLedger,
    queue: Vec<TurnEvent<U>>,
    now: u64,
) -> (step: RunStep<U>)
    requires
        old(ledger).wf(),
    ensures
        final(ledger).wf(),
        (step@, final(ledger)@) == spec_next_event(
            first@,
            old(ledger)@,
            occurrences(queue@),
            now,
        ),
{
    let mut turn = first;
    let mut events = queue;
    let ghost want = spec_next_event(turn@, ledger@, occurrences(events@), now);
    while events.len() > 0
        invariant
            ledger.wf(),
            want == spec_next_event(first@, old(ledger)@, occurrences(queue@), now),
            want == spec_next_event(turn@, ledger@, occurrences(events@), now),
        decreases events@.len(),
    {
        let ghost all = occurrences(events@);
        let event = events.remove(0);
        assert(occurrences(events@) =~= all.skip(1));
        match turn.on_event(ledger, event) {
            Step::Emit => {
                return RunStep::Show { shown: AwaitShown { turn, rest: events } };
            },
            Step::Send { command, sent } => {
                return RunStep::Write {
                    command,
                    write: AwaitWrite { turn, sent, after: AfterWrite::Events(events) },
                };
            },
            _ => {},
        }
    }
    turn.note_progress(now);
    RunStep::Poll { control: AwaitControl { turn } }
}

impl<U> AwaitWrite<U> {
    /// Takes the report that the command was written.
    pub fn written(self, ledger: &mut CommandLedger, now: u64) -> (step: RunStep<U>)
        requires
            old(ledger).wf(),
        ensures
            final(ledger).wf(),
            (step@, final(ledger)@) == spec_after_write(
                self.turn@,
                old(ledger)@,
                self.sent@,
                self.after@,
                now,
            ),
    {
        let mut turn = self.turn;
        turn.sent(ledger, self.sent, now);
        match self.after {
            AfterWrite::Poll => RunStep::Poll { control: AwaitControl { turn } },
            AfterWrite::Events(rest) => next_event(turn, ledger, rest, now),
        }
    }
}

impl<U> AwaitOutput<U> {
    /// Takes the report that the output was shown.
    pub fn shown(self, now: u64) -> (step: RunStep<U>)
        ensures
            step@ == spec_after_output(self.turn@, self.after@, now),
    {
        let mut turn = self.turn;
        match self.after {
            AfterOutput::Settle => {
                turn.note_progress(now);
                RunStep::Poll { control: AwaitControl { turn } }
            },
            AfterOutput::Normalize(source) => RunStep::Normalize {
                source,
                events: AwaitEvents { turn },
            },
        }
    }
}

impl<U> AwaitEvents<U> {
    /// Takes the events that the frame stands for.
    pub fn normalized(
        self,
        ledger: &mut CommandLedger,
        events: Vec<TurnEvent<U>>,
        now: u64,
    ) -> (step: RunStep<U>)
        requires
            old(ledger).wf(),
        ensures
            final(ledger).wf(),
            (step@, final(ledger)@) == spec_next_event(
                self.turn@,
                old(ledger)@,
                occurrences(events@),
                now,
            ),
    {
        next_event(self.turn, ledger, events, now)
    }
}

impl<U> AwaitShown<U> {
    /// Takes the report that the event was shown.
    pub fn shown(self, ledger: &mut CommandLedger, now: u64) -> (step: RunStep<U>)
        requires
            old(ledger).wf(),
        ensures
            final(ledger).wf(),
            (step@, final(ledger)@) == spec_next_event(
                self.turn@,
                old(ledger)@,
                occurrences(self.rest@),
                now,
            ),
    {
        next_event(self.turn, ledger, self.rest, now)
    }
}

impl<U> AwaitEnd<U> {
    /// Ends the turn, once its result was announced or the runtime stopped.
    pub fn ended(self) -> (r: Result<TurnOutcome<U>, HarnessServerError>)
        ensures
            match (r, turn::spec_conclude(self.turn@)) {
                (Ok(outcome), Ok(want)) => outcome == want,
                (Err(e), Err(fault)) => e@ == fault,
                _ => false,
            },
    {
        self.turn.conclude()
    }
}

// ---------------------------------------------------------------------------
// What holds of every run
// ---------------------------------------------------------------------------

/// A result is announced only for a turn that has settled without an error, and it is the result
/// that the turn then ends with.
pub proof fn law_announced_turn_is_settled<U>(turn: TurnView<U>, now: u64)
    ensures
        spec_judge(turn, now) matches Ok(RunView::Announce { turn: ended }) ==> {
            &&& ended == turn
            &&& turn::settled(turn)
            &&& turn::spec_conclude(turn) == Ok::<TurnOutcome<U>, error::ErrorView>(
                TurnOutcome { interrupted: turn.interrupted, usage: turn.usage },
            )
        },
{
}

/// A turn whose runtime was stopped ends as interrupted, or with the error that it met.
pub proof fn law_stopped_turn_is_interrupted<U>(turn: TurnView<U>, now: u64)
    ensures
        spec_judge(turn, now) matches Ok(RunView::Stop { turn: ended }) ==> {
            &&& ended == turn
            &&& match turn::spec_conclude(turn) {
                Ok(outcome) => outcome.interrupted,
                Err(e) => turn.turn_error matches Some(message) && e == error::protocol_fault(
                    message,
                ),
            }
        },
{
}

/// The number of events at the front of a list that are withheld without an abort.
pub open spec fn withheld<U>(turn: TurnView<U>, events: Seq<EventView<U>>) -> int
    decreases events.len(),
{
    if events.len() > 0 && turn.interrupted && events[0] is Error {
        1 + withheld(turn, events.skip(1))
    } else {
        0
    }
}

/// Events are shown in their order and none but errors is left out: the next event to be shown is
/// the first that is no error, and the events behind it are kept for later.
pub proof fn law_events_are_shown_in_order<U>(
    turn: TurnView<U>,
    ledger: LedgerView,
    events: Seq<EventView<U>>,
    now: u64,
)
    ensures
        ({
            let n = withheld(turn, events);
            let (step, _) = spec_next_event(turn, ledger, events, now);
            &&& 0 <= n <= events.len()
            &&& forall|i: int| 0 <= i < n ==> (#[trigger] events[i]) is Error
            &&& n == events.len() ==> step is Poll
            &&& n < events.len() && !(events[n] is Error) ==> (
            step matches RunView::Show { turn: kept, rest } && rest == events.skip(n + 1))
            &&& n < events.len() && events[n] is Error ==> !turn.interrupted && (
            step matches RunView::Write { turn: kept, command, sent, after } && sent is Abort
                && after == AfterWriteView::Events(events.skip(n + 1)))
        }),
    decreases events.len(),
{
    if events.len() > 0 && turn.interrupted && events[0] is Error {
        let taken = turn::spec_on_event(turn, ledger, events[0]);
        let rest = events.skip(1);
        law_events_are_shown_in_order(taken.turn, taken.ledger, rest, now);
        lemma_withheld_same(turn, taken.turn, rest);
        let n = withheld(turn, events);
        assert forall|i: int| 0 <= i < n implies (#[trigger] events[i]) is Error by {
            if i > 0 {
                assert(events[i] == rest[i - 1]);
            }
        }
        if n < events.len() {
            assert(events.skip(1).skip(n) =~= events.skip(n + 1));
            assert(rest[n - 1] == events[n]);
        }
    }
}

proof fn lemma_withheld_same<U>(a: TurnView<U>, b: TurnView<U>, events: Seq<EventView<U>>)
    requires
        a.interrupted == b.interrupted,
    ensures
        withheld(a, events) == withheld(b, events),
    decreases events.len(),
{
    if events.len() > 0 {
        lemma_withheld_same(a, b, events.skip(1));
    }
}

/// A wait that brought nothing in time leaves the turn and the ledger as they were.
pub proof fn law_an_empty_wait_changes_nothing<U>(
    turn: TurnView<U>,
    ledger: LedgerView,
    output_limit: usize,
    now: u64,
)
    ensures
        spec_after_wait(
            turn,
            ledger,
            session::spec_take_received(session::ReceivedView::Timeout),
            output_limit,
            now,
        ) == (Ok::<RunView<U>, error::ErrorView>(RunView::Poll { turn }), ledger),
{
    reveal_strlit("OMP protocol error: ");
    reveal_strlit("OMP frame wait timed out");
    reveal_strlit("timed out");
    let message = "OMP protocol error: "@ + "OMP frame wait timed out"@;
    assert(message.len() == 44);
    assert(message.subrange(35, 44) =~= "timed out"@);
    assert(text::occurs_at(message, "timed out"@, 35));
}

/// Whether a turn agrees with itself: an abort and an error both interrupt it, once interrupted it has
/// its abort written, or about to be, and the runtime is asked whether it is at rest only once the
/// agent has started.
pub open spec fn consistent<U>(turn: TurnView<U>, aborting: bool) -> bool {
    &&& turn.abort_since is Some ==> turn.interrupted
    &&& turn.turn_error is Some ==> turn.interrupted
    &&& turn.interrupted ==> turn.abort_since is Some || aborting
    &&& turn.terminal_check is Some ==> turn.agent_started
}

/// Whether the turn of a step agrees with itself.
pub open spec fn consistent_step<U>(step: RunView<U>) -> bool {
    match step {
        RunView::Poll { turn } => consistent(turn, false),
        RunView::Write { turn, command, sent, after } => if sent is Abort {
            consistent(turn, true) && turn.interrupted
        } else {
            consistent(turn, false) && (sent is TerminalCheck ==> turn.agent_started)
        },
        RunView::Receive { turn } => consistent(turn, false),
        RunView::Output { turn, output, whole, then } => consistent(turn, false),
        RunView::Normalize { turn, source } => consistent(turn, false),
        RunView::Show { turn, rest } => consistent(turn, false),
        RunView::Announce { turn } => consistent(turn, false),
        RunView::Stop { turn } => consistent(turn, false),
    }
}

/// Whether the commands of a turn have identifiers of their own kind.
pub open spec fn identified<U>(turn: TurnView<U>) -> bool {
    &&& ledger::is_command(turn.prompt_id, "prompt"@)
    &&& turn.terminal_check matches Some((id, _)) ==> ledger::is_command(id, "get_state"@)
}

/// Whether a command that is about to be written has an identifier of its own kind.
pub open spec fn identified_sent(sent: SentView) -> bool {
    match sent {
        SentView::Steer { id } => ledger::is_command(id, "steer"@),
        SentView::Abort { id } => ledger::is_command(id, "abort"@),
        SentView::TerminalCheck { id } => ledger::is_command(id, "get_state"@),
        SentView::Denial => true,
    }
}

/// Whether the commands of a step have identifiers of their own kind.
pub open spec fn identified_step<U>(step: RunView<U>) -> bool {
    match step {
        RunView::Poll { turn } => identified(turn),
        RunView::Write { turn, command, sent, after } => identified(turn) && identified_sent(sent),
        RunView::Receive { turn } => identified(turn),
        RunView::Output { turn, output, whole, then } => identified(turn),
        RunView::Normalize { turn, source } => identified(turn),
        RunView::Show { turn, rest } => identified(turn),
        RunView::Announce { turn } => identified(turn),
        RunView::Stop { turn } => identified(turn),
    }
}

/// What holds whenever a run comes to a step: the turn agrees with itself, and its commands and those
/// on the ledger have identifiers of their own kind.
pub open spec fn consistent_run<U>(step: RunView<U>, ledger: LedgerView) -> bool {
    &&& consistent_step(step)
    &&& identified_step(step)
    &&& ledger.identified()
}

/// A control that is still to be answered is neither the prompt of a turn nor its question whether
/// the runtime is at rest.
pub proof fn lemma_controls_are_told_apart<U>(
    turn: TurnView<U>,
    ledger: LedgerView,
    id: Seq<char>,
)
    requires
        identified(turn),
        ledger.identified(),
        ledger.pending.dom().contains(id),
    ensures
        id != turn.prompt_id,
        turn.terminal_check matches Some((check, _)) ==> check != id,
{
    reveal_strlit("prompt");
    reveal_strlit("get_state");
    reveal_strlit("steer");
    reveal_strlit("abort");
    assert("prompt"@.len() == 6);
    assert("get_state"@.len() == 9);
    assert("steer"@.len() == 5);
    assert("abort"@.len() == 5);
    let name = ledger.pending[id].0.spec_name();
    if id == turn.prompt_id {
        ledger::lemma_identifier_tells_name(id, name, "prompt"@);
    }
    if let Some((check, _)) = turn.terminal_check {
        if check == id {
            ledger::lemma_identifier_tells_name(id, name, "get_state"@);
        }
    }
}

/// A turn that is opened is consistent.
proof fn lemma_opening_is_consistent<U>(
    ledger: LedgerView,
    input: Seq<prompt::InputView>,
    now: u64,
)
    requires
        ledger.identified(),
    ensures
        turn::spec_open_turn(ledger, input) matches Ok(opening) ==> consistent_run(
            RunView::Poll { turn: turn::spec_begin::<U>(opening, now) },
            ledger.numbered(),
        ),
{
    assert(ledger::is_command(
        ledger::spec_command_id("prompt"@, ledger.next_id),
        "prompt"@,
    ));
}

/// What an abort leaves behind.
proof fn lemma_abort_is_identified<U>(turn: TurnView<U>, ledger: LedgerView)
    requires
        ledger.identified(),
    ensures
        turn::spec_abort(turn, ledger).ledger.identified(),
        turn::spec_abort(turn, ledger).step matches Ok(StepView::Send { command, sent })
            && identified_sent(sent),
{
    assert(ledger::is_command(ledger::spec_command_id("abort"@, ledger.next_id), "abort"@));
}

/// The question for a control leads to a consistent step.
proof fn lemma_poll_keeps_consistency<U>(
    turn: TurnView<U>,
    ledger: LedgerView,
    control: Option<ControlView>,
    now: u64,
)
    requires
        consistent_run(RunView::Poll { turn }, ledger),
    ensures
        ({
            let (next, after) = spec_after_poll(turn, ledger, control, now);
            after.identified() && (next matches Ok(step) ==> consistent_run(step, after))
        }),
{
    lemma_abort_is_identified(turn, ledger);
    assert(ledger::is_command(ledger::spec_command_id("steer"@, ledger.next_id), "steer"@));
}

/// What a frame does to a turn and the ledger.
proof fn lemma_frame_keeps_consistency<U>(
    turn: TurnView<U>,
    ledger: LedgerView,
    frame: json::JsonView,
    output_limit: usize,
)
    requires
        consistent(turn, false),
        identified(turn),
        ledger.identified(),
    ensures
        ({
            let taken = turn::spec_on_frame(turn, ledger, frame, output_limit);
            &&& consistent(taken.turn, false)
            &&& identified(taken.turn)
            &&& taken.ledger.identified()
            &&& taken.step matches Ok(StepView::Send { command, sent }) ==> !(sent is Abort)
                && identified_sent(sent) && (sent is TerminalCheck ==> taken.turn.agent_started)
        }),
{
    assert(ledger::is_command(
        ledger::spec_command_id("get_state"@, ledger.next_id),
        "get_state"@,
    ));
}

/// The wait for a frame leads to a consistent step.
proof fn lemma_wait_keeps_consistency<U>(
    turn: TurnView<U>,
    ledger: LedgerView,
    received: Result<Option<json::JsonView>, error::ErrorView>,
    output_limit: usize,
    now: u64,
)
    requires
        consistent_run(RunView::Receive { turn }, ledger),
    ensures
        ({
            let (next, after) = spec_after_wait(turn, ledger, received, output_limit, now);
            after.identified() && (next matches Ok(step) ==> consistent_run(step, after))
        }),
{
    if let Ok(Some(frame)) = received {
        lemma_frame_keeps_consistency(turn, ledger, frame, output_limit);
    }
}

/// The events of a frame lead to a consistent step.
proof fn lemma_events_keep_consistency<U>(
    turn: TurnView<U>,
    ledger: LedgerView,
    events: Seq<EventView<U>>,
    now: u64,
)
    requires
        consistent(turn, false),
        identified(turn),
        ledger.identified(),
    ensures
        ({
            let (step, after) = spec_next_event(turn, ledger, events, now);
            consistent_run(step, after)
        }),
    decreases events.len(),
{
    if events.len() > 0 {
        let taken = turn::spec_on_event(turn, ledger, events[0]);
        lemma_abort_is_identified(turn, ledger);
        if taken.step matches Ok(StepView::Idle) {
            lemma_events_keep_consistency(taken.turn, taken.ledger, events.skip(1), now);
        }
    }
}

/// The report of a written command leads to a consistent step.
proof fn lemma_write_keeps_consistency<U>(
    turn: TurnView<U>,
    ledger: LedgerView,
    command: json::JsonView,
    sent: SentView,
    after: AfterWriteView<U>,
    now: u64,
)
    requires
        consistent_run(RunView::Write { turn, command, sent, after }, ledger),
    ensures
        ({
            let (step, kept) = spec_after_write(turn, ledger, sent, after, now);
            consistent_run(step, kept)
        }),
{
    let (later, kept) = turn::spec_sent(turn, ledger, sent, now);
    assert(consistent(later, false));
    assert(identified(later));
    assert(kept.identified());
    if let AfterWriteView::Events(rest) = after {
        lemma_events_keep_consistency(later, kept, rest, now);
    }
}

/// A turn begins consistent, on any ledger whose controls have identifiers of their own kind; and
/// whatever the user, the runtime and the clock do, each of its steps leads to a consistent one. The
/// ledger it leaves behind is such a ledger again, even where it fails.
pub proof fn law_every_step_keeps_consistency<U>(
    turn: TurnView<U>,
    ledger: LedgerView,
    input: Seq<prompt::InputView>,
    control: Option<ControlView>,
    received: Result<Option<json::JsonView>, error::ErrorView>,
    output_limit: usize,
    source: json::JsonView,
    events: Seq<EventView<U>>,
    command: json::JsonView,
    sent: SentView,
    after: AfterWriteView<U>,
    output: Seq<char>,
    whole: bool,
    then: AfterOutputView,
    now: u64,
)
    ensures
        ledger.identified() ==> (turn::spec_open_turn(ledger, input) matches Ok(opening)
            ==> consistent_run(
            RunView::Poll { turn: turn::spec_begin::<U>(opening, now) },
            ledger.numbered(),
        )),
        consistent_run(RunView::Poll { turn }, ledger) ==> {
            let (next, left) = spec_after_poll(turn, ledger, control, now);
            left.identified() && (next matches Ok(step) ==> consistent_run(step, left))
        },
        consistent_run(RunView::Receive { turn }, ledger) ==> {
            let (next, left) = spec_after_wait(turn, ledger, received, output_limit, now);
            left.identified() && (next matches Ok(step) ==> consistent_run(step, left))
        },
        consistent_run(RunView::Normalize { turn, source }, ledger) ==> {
            let (step, left) = spec_next_event(turn, ledger, events, now);
            consistent_run(step, left)
        },
        consistent_run(RunView::Show { turn, rest: events }, ledger) ==> {
            let (step, left) = spec_next_event(turn, ledger, events, now);
            consistent_run(step, left)
        },
        consistent_run(RunView::Output { turn, output, whole, then }, ledger) ==> consistent_run(
            spec_after_output(turn, then, now),
            ledger,
        ),
        consistent_run(RunView::Write { turn, command, sent, after }, ledger) ==> {
            let (step, left) = spec_after_write(turn, ledger, sent, after, now);
            consistent_run(step, left)
        },
{
    if ledger.identified() {
        lemma_opening_is_consistent::<U>(ledger, input, now);
        if identified(turn) && consistent(turn, false) {
            lemma_poll_keeps_consistency(turn, ledger, control, now);
            lemma_wait_keeps_consistency(turn, ledger, received, output_limit, now);
            lemma_events_keep_consistency(turn, ledger, events, now);
        }
        if consistent_run(RunView::Write { turn, command, sent, after }, ledger) {
            lemma_write_keeps_consistency(turn, ledger, command, sent, after, now);
        }
    }
}

/// An interrupted turn ends: at any question for a control that is answered with none after the
/// grace has passed since its abort, it is announced, stopped or failed, and waits for no frame.
pub proof fn law_interrupted_turn_ends<U>(turn: TurnView<U>, ledger: LedgerView, now: u64)
    requires
        consistent(turn, false),
        turn.interrupted,
        turn.abort_since matches Some(since) ==> now - since >= turn::ABORT_GRACE,
    ensures
        match spec_after_poll(turn, ledger, None, now).0 {
            Err(_) => true,
            Ok(RunView::Announce { turn: ended }) => ended == turn,
            Ok(RunView::Stop { turn: ended }) => ended == turn,
            Ok(_) => false,
        },
{
}

/// The report that the runtime could not store its session ends the turn, and tells nothing of what
/// the report holds.
pub proof fn law_lost_persistence_ends_the_turn<U>(
    turn: TurnView<U>,
    ledger: LedgerView,
    frame: json::JsonView,
    output_limit: usize,
    now: u64,
)
    requires
        session::persistence_failure(frame),
    ensures
        spec_after_wait(
            turn,
            ledger,
            session::spec_take_received(session::ReceivedView::Line(Ok(Some(frame)))),
            output_limit,
            now,
        ) == (
            Err::<RunView<U>, error::ErrorView>(
                error::protocol_fault("OMP session persistence failed"@),
            ),
            ledger,
        ),
{
    let message = "OMP protocol error: "@ + "OMP session persistence failed"@;
    reveal_strlit("OMP protocol error: ");
    reveal_strlit("OMP session persistence failed");
    reveal_strlit("timed out");
    assert forall|i: int| !text::occurs_at(message, "timed out"@, i) by {
        if text::occurs_at(message, "timed out"@, i) {
            assert("timed out"@[7] == 'u');
            assert(message.subrange(i, i + 9)[7] == message[i + 7]);
            let k = i + 7;
            assert(message[k] == 'u');
        }
    }
}

} // verus!
