use omp_harness::error::HarnessServerError;
use omp_harness::json::{Json, Member};
use omp_harness::ledger::CommandLedger;
use omp_harness::prompt::UserInput;
use omp_harness::run::RunStep;
use omp_harness::server::{
    conclusion, turn_request, BlocksCommand, Conclusion, TurnRequest, UserMessage,
};
use omp_harness::session::{take_received, Received};
use omp_harness::turn::{
    open_turn, tolerates, Sent, Step, Turn, TurnControl, TurnEvent, TurnOutcome, Verdict,
    ABORT_GRACE, COMMAND_TIMEOUT, MAX_PENDING_CONTROLS, POLL_INTERVAL, TURN_IDLE_TIMEOUT,
};

const OUTPUT_LIMIT: usize = 64;

fn parse(text: &str) -> serde_json::Value {
    serde_json::from_str(text).unwrap()
}

fn read(value: &serde_json::Value) -> Json {
    match value {
        serde_json::Value::Null => Json::Null,
        serde_json::Value::Bool(b) => Json::Bool(*b),
        serde_json::Value::Number(n) => match n.as_u64() {
            Some(n) => Json::Unsigned(n),
            None => Json::Number(n.to_string()),
        },
        serde_json::Value::String(s) => Json::Text(s.clone()),
        serde_json::Value::Array(items) => Json::List(items.iter().map(read).collect()),
        serde_json::Value::Object(members) => Json::Object(
            members
                .iter()
                .map(|(name, value)| Member { name: name.clone(), value: read(value) })
                .collect(),
        ),
    }
}

fn frame(text: &str) -> Json {
    read(&parse(text))
}

fn show(document: &Json) -> serde_json::Value {
    match document {
        Json::Null => serde_json::Value::Null,
        Json::Bool(b) => serde_json::Value::Bool(*b),
        Json::Unsigned(n) => serde_json::Value::from(*n),
        Json::Number(s) => parse(s),
        Json::Text(s) => serde_json::Value::String(s.clone()),
        Json::List(items) => serde_json::Value::Array(items.iter().map(show).collect()),
        Json::Object(members) => serde_json::Value::Object(
            members.iter().map(|m| (m.name.clone(), show(&m.value))).collect(),
        ),
    }
}

fn text(s: &str) -> UserInput {
    UserInput::Text { text: s.to_owned() }
}

fn steer() -> TurnControl {
    TurnControl::Steer(vec![text("steer")])
}

fn response(id: &str, command: &str, success: bool) -> Json {
    frame(&format!(
        r#"{{"type": "response", "id": "{id}", "command": "{command}", "success": {success}}}"#
    ))
}

fn begin(ledger: &mut CommandLedger, input: &str) -> Turn<u64> {
    let opening = open_turn(ledger, &[text(input)]).unwrap();
    Turn::begin(opening, 0)
}

fn send(turn: &mut Turn<u64>, ledger: &mut CommandLedger, control: TurnControl) -> String {
    match turn.on_control(ledger, &control).unwrap() {
        Step::Send { command, sent } => {
            let id = command.text("id").unwrap().to_owned();
            turn.sent(ledger, sent, 0);
            id
        }
        other => panic!("the control is sent: {other:?}"),
    }
}

fn take(turn: &mut Turn<u64>, ledger: &mut CommandLedger, frame: &Json) -> Step {
    turn.on_frame(ledger, frame, OUTPUT_LIMIT).unwrap()
}

/// Brings a turn to rest: the prompt is acknowledged, the agent starts and ends, and the runtime says
/// that it is at rest.
fn settle(turn: &mut Turn<u64>, ledger: &mut CommandLedger) {
    let prompt = turn.prompt_id.clone();
    assert!(matches!(take(turn, ledger, &response(&prompt, "prompt", true)), Step::Progress));
    take(turn, ledger, &frame(r#"{"type": "agent_start"}"#));
    finish(turn, ledger);
}

fn finish(turn: &mut Turn<u64>, ledger: &mut CommandLedger) {
    let step = take(turn, ledger, &frame(r#"{"type": "agent_end", "isTerminal": true}"#));
    let id = match step {
        Step::Send { command, sent } => {
            assert_eq!(command.text("type"), Some("get_state"));
            let id = command.text("id").unwrap().to_owned();
            turn.sent(ledger, sent, 0);
            id
        }
        other => panic!("the state is asked for: {other:?}"),
    };
    let answer = frame(&format!(
        r#"{{"type": "response", "id": "{id}", "command": "get_state", "success": true,
        "data": {{"isStreaming": false}}}}"#
    ));
    assert!(matches!(take(turn, ledger, &answer), Step::Progress));
    assert!(turn.terminal_seen);
}

#[test]
fn a_prompt_is_numbered_and_carries_its_images() {
    let mut ledger = CommandLedger::new();
    let opening = open_turn(&mut ledger, &[text("hello")]).unwrap();
    assert_eq!((opening.prompt_id.as_str(), opening.sequence), ("centaur-prompt-1", 1));
    assert_eq!(
        show(&opening.command),
        parse(r#"{"id": "centaur-prompt-1", "type": "prompt", "message": "hello"}"#)
    );
    let image = UserInput::Image { url: "data:image/png;base64,iVBORw0KGgo=".to_owned() };
    let opening = open_turn(&mut ledger, &[text("__image__"), image]).unwrap();
    assert_eq!(
        show(&opening.command),
        parse(
            r#"{"id": "centaur-prompt-2", "type": "prompt", "message": "__image__", "images":
            [{"type": "image", "data": "iVBORw0KGgo=", "mimeType": "image/png"}]}"#
        )
    );
    let refused = UserInput::Image { url: "http://x".to_owned() };
    assert!(open_turn(&mut ledger, &[refused]).is_err());
    assert_eq!(ledger.next_id, 3);
}

#[test]
fn a_turn_completes_once_the_runtime_is_at_rest() {
    let mut ledger = CommandLedger::new();
    let mut turn = begin(&mut ledger, "normal one");
    assert!(matches!(turn.verdict(0), Verdict::Receive));
    settle(&mut turn, &mut ledger);
    assert!(matches!(turn.verdict(0), Verdict::Complete));
    let outcome = turn.conclude().unwrap();
    assert!(!outcome.interrupted && outcome.usage.is_none());
}

#[test]
fn a_terminal_event_alone_does_not_complete_a_turn() {
    let mut ledger = CommandLedger::new();
    let mut turn = begin(&mut ledger, "x");
    let end = frame(r#"{"type": "agent_end", "isTerminal": true}"#);
    assert!(matches!(take(&mut turn, &mut ledger, &end), Step::Idle));
    take(&mut turn, &mut ledger, &frame(r#"{"type": "agent_start"}"#));
    let going = frame(r#"{"type": "agent_end", "isTerminal": false}"#);
    assert!(matches!(take(&mut turn, &mut ledger, &going), Step::Progress));
    let id = match take(&mut turn, &mut ledger, &end) {
        Step::Send { command, sent } => {
            let id = command.text("id").unwrap().to_owned();
            turn.sent(&mut ledger, sent, 5);
            id
        }
        other => panic!("{other:?}"),
    };
    assert!(matches!(take(&mut turn, &mut ledger, &end), Step::Idle));
    let streaming = frame(&format!(
        r#"{{"type": "response", "id": "{id}", "command": "get_state", "success": true,
        "data": {{"isStreaming": true}}}}"#
    ));
    assert!(matches!(take(&mut turn, &mut ledger, &streaming), Step::Idle));
    assert!(!turn.terminal_seen && turn.terminal_check.is_none());
    assert!(!matches!(turn.verdict(0), Verdict::Complete));
    assert_eq!(
        turn.on_frame(&mut ledger, &frame(r#"{"type": "agent_end"}"#), 1).unwrap_err().message(),
        "OMP protocol error: OMP agent_end omitted boolean isTerminal"
    );
}

#[test]
fn fake_omp_late_abort_response_does_not_poison_next_turn() {
    let mut ledger = CommandLedger::new();
    let mut turn = begin(&mut ledger, "__late_abort__");
    let id = send(&mut turn, &mut ledger, TurnControl::Interrupt);
    settle(&mut turn, &mut ledger);
    assert!(turn.conclude().unwrap().interrupted);
    let mut next = begin(&mut ledger, "after late response");
    let late = response(&id, "abort", false);
    assert!(matches!(take(&mut next, &mut ledger, &late), Step::Idle));
    settle(&mut next, &mut ledger);
    assert!(!next.conclude().unwrap().interrupted);
}

#[test]
fn fake_omp_late_steer_response_does_not_poison_next_turn() {
    let mut ledger = CommandLedger::new();
    let mut turn = begin(&mut ledger, "__late_steer__");
    let id = send(&mut turn, &mut ledger, steer());
    settle(&mut turn, &mut ledger);
    assert!(!turn.conclude().unwrap().interrupted);
    let mut next = begin(&mut ledger, "after late response");
    let late = response(&id, "steer", false);
    assert!(matches!(take(&mut next, &mut ledger, &late), Step::Idle));
    settle(&mut next, &mut ledger);
    assert!(!next.conclude().unwrap().interrupted);
}

#[test]
fn fake_omp_unknown_control_response_fails_closed() {
    let mut ledger = CommandLedger::new();
    let mut turn = begin(&mut ledger, "__unknown_control__");
    let failed = turn.on_frame(&mut ledger, &response("nobody", "steer", true), OUTPUT_LIMIT);
    let message = failed.unwrap_err().message();
    assert!(message.contains("unknown active-turn id"));
    assert_eq!(
        message,
        "OMP protocol error: OMP emitted response for unknown active-turn id nobody"
    );
}

#[test]
fn fake_omp_bounds_pending_control_responses() {
    let mut ledger = CommandLedger::new();
    let mut turn = begin(&mut ledger, "__silent_controls__");
    for _ in 0..MAX_PENDING_CONTROLS {
        send(&mut turn, &mut ledger, steer());
    }
    assert_eq!(ledger.pending.len(), 1024);
    for control in [steer(), TurnControl::Interrupt] {
        let failed = turn.on_control(&mut ledger, &control).unwrap_err().message();
        assert!(failed.contains("pending control response limit"));
    }
    assert_eq!(ledger.pending.len(), 1024);
}

#[test]
fn controls_of_this_turn_must_succeed_and_match() {
    let mut ledger = CommandLedger::new();
    let mut turn = begin(&mut ledger, "x");
    let first = send(&mut turn, &mut ledger, steer());
    assert!(matches!(
        take(&mut turn, &mut ledger, &response(&first, "steer", true)),
        Step::Progress
    ));
    assert!(turn.on_frame(&mut ledger, &response(&first, "steer", true), 1).is_err());
    let second = send(&mut turn, &mut ledger, steer());
    let failed = turn.on_frame(&mut ledger, &response(&second, "steer", false), OUTPUT_LIMIT);
    assert_eq!(
        failed.unwrap_err().message(),
        "OMP protocol error: OMP steer response failed or mismatched"
    );
    let third = send(&mut turn, &mut ledger, TurnControl::Interrupt);
    let failed = turn.on_frame(&mut ledger, &response(&third, "steer", true), OUTPUT_LIMIT);
    assert_eq!(
        failed.unwrap_err().message(),
        "OMP protocol error: OMP abort response failed or mismatched"
    );
    assert!(matches!(turn.on_control(&mut ledger, &steer()), Ok(Step::Idle)));
    assert!(matches!(turn.on_control(&mut ledger, &TurnControl::Interrupt), Ok(Step::Idle)));
}

#[test]
fn responses_must_be_whole_and_match_the_prompt() {
    let mut ledger = CommandLedger::new();
    let mut turn = begin(&mut ledger, "x");
    let mut message = |text: &str| {
        turn.on_frame(&mut ledger, &frame(text), OUTPUT_LIMIT).unwrap_err().message()
    };
    for (text, expected) in [
        (r#"{"type": "response"}"#, "OMP response omitted string id"),
        (r#"{"type": "response", "id": "a"}"#, "OMP response omitted command"),
        (r#"{"type": "response", "id": "a", "command": "b"}"#, "OMP response omitted success"),
        (
            r#"{"type": "response", "id": "centaur-prompt-1", "command": "b", "success": true}"#,
            "OMP prompt response command mismatch",
        ),
        (
            r#"{"type": "response", "id": "centaur-prompt-1", "command": "prompt",
            "success": false, "error": "busy"}"#,
            "OMP prompt failed: busy",
        ),
        (
            r#"{"type": "response", "id": "centaur-prompt-1", "command": "prompt",
            "success": false}"#,
            "OMP prompt failed: unspecified error",
        ),
        (r#"{}"#, "OMP frame is missing string type"),
        (r#"{"type": "command_output"}"#, "OMP command_output omitted text"),
    ] {
        assert_eq!(message(text), format!("OMP protocol error: {expected}"));
    }
    let check = Sent::TerminalCheck { id: "c".to_owned() };
    turn.sent(&mut ledger, check, 0);
    for (data, expected) in [
        (r#""command": "x", "success": true"#, "OMP terminal state check failed or mismatched"),
        (
            r#""command": "get_state", "success": false"#,
            "OMP terminal state check failed or mismatched",
        ),
        (r#""command": "get_state", "success": true"#, "OMP terminal state omitted isStreaming"),
    ] {
        let answer = frame(&format!(r#"{{"type": "response", "id": "c", {data}}}"#));
        let failed = turn.on_frame(&mut ledger, &answer, OUTPUT_LIMIT).unwrap_err();
        assert_eq!(failed.message(), format!("OMP protocol error: {expected}"));
    }
}

#[test]
fn commands_may_answer_without_the_agent() {
    let output = frame(r#"{"type": "command_output", "text": "local command "}"#);
    let more = frame(r#"{"type": "command_output", "text": "completed"}"#);
    let answers = [
        r#"{"type": "response", "id": "centaur-prompt-1", "command": "prompt", "success": true,
        "data": {"agentInvoked": false}}"#,
        r#"{"type": "prompt_result", "id": "centaur-prompt-1", "agentInvoked": false}"#,
    ];
    for answer in answers {
        let mut ledger = CommandLedger::new();
        let mut turn = begin(&mut ledger, "__local__");
        assert!(matches!(take(&mut turn, &mut ledger, &output), Step::Progress));
        assert!(matches!(take(&mut turn, &mut ledger, &more), Step::Progress));
        let step = take(&mut turn, &mut ledger, &frame(answer));
        assert!(matches!(step, Step::Flush { output } if output == "local command completed"));
        assert!(turn.terminal_seen && turn.pending_output.is_empty());
    }
    let mut ledger = CommandLedger::new();
    let mut turn = begin(&mut ledger, "x");
    for other in [
        r#"{"type": "prompt_result", "id": "other", "agentInvoked": false}"#,
        r#"{"type": "prompt_result", "id": "centaur-prompt-1", "agentInvoked": true}"#,
    ] {
        assert!(matches!(take(&mut turn, &mut ledger, &frame(other)), Step::Idle));
        assert!(!turn.terminal_seen);
    }
}

#[test]
fn early_output_is_kept_for_the_agent_and_bounded() {
    let mut ledger = CommandLedger::new();
    let mut turn = begin(&mut ledger, "__early__");
    let output = frame(r#"{"type": "command_output", "text": "early é"}"#);
    take(&mut turn, &mut ledger, &output);
    assert!(matches!(turn.on_frame(&mut ledger, &output, 16), Ok(Step::Progress)));
    assert_eq!(
        turn.on_frame(&mut ledger, &output, 23).unwrap_err().message(),
        "OMP protocol error: OMP pending command output exceeds its size limit"
    );
    let step = take(&mut turn, &mut ledger, &frame(r#"{"type": "agent_start"}"#));
    assert!(matches!(step, Step::Normalize { early: Some(text) } if text == "early éearly é"));
    let step = take(&mut turn, &mut ledger, &output);
    assert!(matches!(step, Step::Normalize { early: None }));
}

#[test]
fn fake_omp_error_events_and_host_uri_denial_are_terminal() {
    for prompt in ["__notice_error__", "__retry_error__", "__extension_error__"] {
        let mut ledger = CommandLedger::new();
        let mut turn = begin(&mut ledger, prompt);
        let step = turn.on_event(&mut ledger, TurnEvent::Error(prompt.to_owned()));
        match step {
            Step::Send { command, sent } => {
                assert_eq!(
                    show(&command),
                    parse(r#"{"id": "centaur-abort-2", "type": "abort"}"#)
                );
                turn.sent(&mut ledger, sent, 0);
            }
            other => panic!("an error aborts the turn: {other:?}"),
        }
        let again = turn.on_event(&mut ledger, TurnEvent::Error("later".to_owned()));
        assert!(matches!(again, Step::Idle));
        settle(&mut turn, &mut ledger);
        assert!(matches!(turn.verdict(0), Verdict::Complete));
        assert_eq!(
            turn.conclude().unwrap_err().message(),
            format!("OMP protocol error: {prompt}")
        );
    }
    let mut ledger = CommandLedger::new();
    let mut turn = begin(&mut ledger, "__host_uri__");
    let asked = frame(r#"{"type": "host_uri_request", "id": "u1", "uri": "file:///etc/passwd"}"#);
    match take(&mut turn, &mut ledger, &asked) {
        Step::Send { command, sent } => {
            assert_eq!(command.text("id"), Some("u1"));
            assert_eq!(command.flag("isError"), Some(true));
            turn.sent(&mut ledger, sent, 9);
            assert_eq!(turn.last_progress, 9);
        }
        other => panic!("the callback is denied: {other:?}"),
    }
    settle(&mut turn, &mut ledger);
    assert!(!turn.conclude().unwrap().interrupted);
}

#[test]
fn usage_is_kept_and_events_are_shown() {
    let mut ledger = CommandLedger::new();
    let mut turn = begin(&mut ledger, "x");
    assert!(matches!(turn.on_event(&mut ledger, TurnEvent::Usage(3)), Step::Emit));
    assert!(matches!(turn.on_event(&mut ledger, TurnEvent::Usage(4)), Step::Emit));
    assert!(matches!(turn.on_event(&mut ledger, TurnEvent::Other), Step::Emit));
    settle(&mut turn, &mut ledger);
    assert_eq!(turn.conclude().unwrap().usage, Some(4));
}

#[test]
fn an_ignored_abort_is_forced_after_its_grace() {
    let mut ledger = CommandLedger::new();
    let mut turn = begin(&mut ledger, "__ignore_abort__");
    assert!(matches!(
        take(&mut turn, &mut ledger, &response("centaur-prompt-1", "prompt", true)),
        Step::Progress
    ));
    send(&mut turn, &mut ledger, TurnControl::Interrupt);
    assert!(matches!(turn.verdict(ABORT_GRACE - 1), Verdict::Receive));
    assert!(matches!(turn.verdict(ABORT_GRACE), Verdict::ForceStop));
    assert_eq!(ABORT_GRACE, 5_000_000_000);
    assert!(turn.conclude().unwrap().interrupted);
}

#[test]
fn waits_of_a_turn_end_in_time() {
    let mut ledger = CommandLedger::new();
    let mut turn = begin(&mut ledger, "x");
    let failure = |turn: &Turn<u64>, now: u64| match turn.verdict(now) {
        Verdict::Failed(e) => Some(e.message()),
        _ => None,
    };
    assert_eq!(failure(&turn, COMMAND_TIMEOUT - 1), None);
    assert_eq!(
        failure(&turn, COMMAND_TIMEOUT).unwrap(),
        "OMP protocol error: OMP prompt acknowledgement timed out"
    );
    turn.prompt_acknowledged = true;
    assert_eq!(failure(&turn, TURN_IDLE_TIMEOUT - 1), None);
    assert_eq!(
        failure(&turn, TURN_IDLE_TIMEOUT).unwrap(),
        "OMP protocol error: OMP turn made no transport progress before watchdog expiry"
    );
    turn.note_progress(TURN_IDLE_TIMEOUT);
    assert_eq!(failure(&turn, TURN_IDLE_TIMEOUT), None);
    turn.sent(&mut ledger, Sent::TerminalCheck { id: "c".to_owned() }, TURN_IDLE_TIMEOUT);
    assert_eq!(
        failure(&turn, TURN_IDLE_TIMEOUT + COMMAND_TIMEOUT).unwrap(),
        "OMP protocol error: OMP terminal state check timed out"
    );
    assert_eq!(
        (COMMAND_TIMEOUT, TURN_IDLE_TIMEOUT, POLL_INTERVAL),
        (30_000_000_000, 1_800_000_000_000, 50_000_000)
    );
}

#[test]
fn only_timeouts_are_tolerated() {
    let fault = |received| take_received(received).unwrap_err();
    assert!(tolerates(&fault(Received::Timeout)));
    let gone = Received::Disconnected { stderr: " (stderr)".to_owned() };
    assert!(!tolerates(&fault(gone)));
    assert!(!tolerates(&HarnessServerError::Io("timed out".to_owned())));
}

#[test]
fn fake_omp_handles_new_ui_metadata_and_fails_on_persistence_loss() {
    let mut ledger = CommandLedger::new();
    let mut turn = begin(&mut ledger, "__ui_select__");
    let asked = frame(
        r#"{"type": "extension_ui_request", "id": "s1", "method": "select", "title": "Pick"}"#,
    );
    match take(&mut turn, &mut ledger, &asked) {
        Step::Send { command, sent: Sent::Denial } => assert_eq!(
            show(&command),
            parse(r#"{"type": "extension_ui_response", "id": "s1", "cancelled": true}"#)
        ),
        other => panic!("the dialog is cancelled: {other:?}"),
    }
    settle(&mut turn, &mut ledger);
    assert!(turn.conclude().is_ok());

    let notice = frame(
        r#"{"type": "notice", "level": "error", "source": "session-persistence",
        "message": "private-store-path"}"#,
    );
    let error = take_received(Received::Line(Ok(Some(notice)))).unwrap_err();
    assert!(!tolerates(&error));
    assert!(error.message().contains("session persistence failed"));
    assert!(!error.message().contains("private-store-path"));
}

/// What carries out the steps of a run: it answers each with what a script gives.
struct Driver {
    controls: Vec<TurnControl>,
    frames: Vec<String>,
    written: Vec<serde_json::Value>,
    shown: Vec<String>,
    now: u64,
}

impl Driver {
    fn drive(&mut self, ledger: &mut CommandLedger, turn: Turn<u64>) -> Result<TurnOutcome<u64>, String> {
        let mut step = turn.run();
        loop {
            self.now += 1;
            let now = self.now;
            step = match step {
                RunStep::Poll { control } => {
                    let polled =
                        if self.controls.is_empty() { None } else { Some(self.controls.remove(0)) };
                    control.polled(ledger, polled.as_ref(), now).map_err(|e| e.message())?
                }
                RunStep::Write { command, write } => {
                    self.written.push(show(&command));
                    write.written(ledger, now)
                }
                RunStep::Receive { frame: wait } => {
                    let received = if self.frames.is_empty() {
                        self.now += POLL_INTERVAL;
                        Received::Timeout
                    } else {
                        Received::Line(Ok(Some(frame(&self.frames.remove(0)))))
                    };
                    wait.received(ledger, take_received(received), OUTPUT_LIMIT, now)
                        .map_err(|e| e.message())?
                }
                RunStep::Output { output, whole, show } => {
                    self.shown.push(format!("output {output:?} {whole}"));
                    show.shown(now)
                }
                RunStep::Normalize { source, events } => {
                    let found = match source.text("type") {
                        Some("agent_start") => vec![],
                        Some("message") => vec![TurnEvent::Other, TurnEvent::Usage(9)],
                        Some(other) => vec![
                            TurnEvent::Other,
                            TurnEvent::Error(other.to_owned()),
                            TurnEvent::Error("second".to_owned()),
                            TurnEvent::Other,
                        ],
                        None => vec![],
                    };
                    events.normalized(ledger, found, now)
                }
                RunStep::Show { shown } => {
                    self.shown.push("event".to_owned());
                    shown.shown(ledger, now)
                }
                RunStep::Announce { end } => {
                    self.shown.push("result".to_owned());
                    return end.ended().map_err(|e| e.message());
                }
                RunStep::Stop { end } => {
                    self.shown.push("stop".to_owned());
                    return end.ended().map_err(|e| e.message());
                }
            };
        }
    }
}

fn driver(controls: Vec<TurnControl>, frames: Vec<&str>) -> Driver {
    let frames = frames.into_iter().map(str::to_owned).collect();
    Driver { controls, frames, written: vec![], shown: vec![], now: 0 }
}

/// The successful response to a command.
fn answer(id: &str, command: &str) -> String {
    format!(
        r#"{{"type": "response", "id": "{id}", "command": "{command}", "success": true}}"#
    )
}

/// The word of the runtime that it is at rest.
fn rest(number: u64) -> String {
    format!(
        r#"{{"type": "response", "id": "centaur-get_state-{number}", "command": "get_state",
        "success": true, "data": {{"isStreaming": false}}}}"#
    )
}

const ACK: &str =
    r#"{"type": "response", "id": "centaur-prompt-1", "command": "prompt", "success": true}"#;
const START: &str = r#"{"type": "agent_start"}"#;
const END: &str = r#"{"type": "agent_end", "isTerminal": true}"#;

#[test]
fn a_run_goes_from_the_prompt_to_the_result() {
    let mut ledger = CommandLedger::new();
    let turn = begin(&mut ledger, "x");
    let mut driver = driver(
        vec![],
        vec![
            r#"{"type": "command_output", "text": "early"}"#,
            ACK,
            START,
            r#"{"type": "message"}"#,
            r#"{"type": "host_tool_call", "id": "h"}"#,
            END,
            r#"{"type": "response", "id": "centaur-get_state-2", "command": "get_state",
            "success": true, "data": {"isStreaming": false}}"#,
        ],
    );
    let outcome = driver.drive(&mut ledger, turn).unwrap();
    assert_eq!((outcome.interrupted, outcome.usage), (false, Some(9)));
    assert_eq!(driver.shown, ["output \"early\" false", "event", "event", "result"]);
    assert_eq!(driver.written.len(), 2);
    assert_eq!(driver.written[1], parse(r#"{"id": "centaur-get_state-2", "type": "get_state"}"#));
}

#[test]
fn a_run_is_steered_and_aborted() {
    let mut ledger = CommandLedger::new();
    let turn = begin(&mut ledger, "__hang__");
    let mut driver = driver(
        vec![steer(), TurnControl::Interrupt, steer()],
        vec![
            r#"{"type": "response", "id": "centaur-steer-2", "command": "steer",
            "success": true}"#,
        ],
    );
    let outcome = driver.drive(&mut ledger, turn).unwrap();
    assert!(outcome.interrupted);
    assert_eq!(driver.shown, ["stop"]);
    assert_eq!(
        driver.written,
        [
            parse(r#"{"id": "centaur-steer-2", "type": "steer", "message": "steer"}"#),
            parse(r#"{"id": "centaur-abort-3", "type": "abort"}"#),
        ]
    );
    assert_eq!(ledger.pending.len(), 1);
    assert!(driver.now >= ABORT_GRACE);
}

#[test]
fn a_run_with_an_error_aborts_and_fails() {
    let mut ledger = CommandLedger::new();
    let turn = begin(&mut ledger, "__late_error__");
    let mut driver = driver(
        vec![],
        vec![
            ACK,
            START,
            r#"{"type": "scheduling failure"}"#,
            END,
            r#"{"type": "response", "id": "centaur-get_state-3", "command": "get_state",
            "success": true, "data": {"isStreaming": false}}"#,
        ],
    );
    let failed = driver.drive(&mut ledger, turn).unwrap_err();
    assert!(failed.contains("scheduling failure"));
    assert_eq!(driver.shown, ["output \"\" false", "event", "event"]);
    assert_eq!(driver.written[0], parse(r#"{"id": "centaur-abort-2", "type": "abort"}"#));
}

#[test]
fn fake_omp_enforces_terminal_error_callback_and_abort_semantics() {
    let mut ledger = CommandLedger::new();
    let turn = begin(&mut ledger, "__nonterminal__");
    let mut driver = driver(
        vec![],
        vec![
            END,
            ACK,
            START,
            r#"{"type": "agent_end", "isTerminal": false}"#,
            r#"{"type": "message"}"#,
            END,
            r#"{"type": "response", "id": "centaur-get_state-2", "command": "get_state",
            "success": true, "data": {"isStreaming": true}}"#,
            END,
            r#"{"type": "response", "id": "centaur-get_state-3", "command": "get_state",
            "success": true, "data": {"isStreaming": false}}"#,
        ],
    );
    let outcome = driver.drive(&mut ledger, turn).unwrap();
    assert!(!outcome.interrupted);
    assert_eq!(driver.written.len(), 2);
    assert_eq!(driver.shown.last().map(String::as_str), Some("result"));

    // A steer is answered before the prompt is acknowledged.
    let turn = begin(&mut ledger, "__out_of_order__");
    let steering = TurnControl::Steer(vec![text("steer now")]);
    let mut steered = self::driver(
        vec![steering],
        vec![
            START,
            &answer("centaur-steer-5", "steer"),
            r#"{"type": "message"}"#,
            &answer("centaur-prompt-4", "prompt"),
            END,
            &rest(6),
        ],
    );
    assert!(!steered.drive(&mut ledger, turn).unwrap().interrupted);
    assert_eq!(
        steered.written[0],
        parse(r#"{"id": "centaur-steer-5", "type": "steer", "message": "steer now"}"#)
    );
    assert_eq!(steered.shown, ["output \"\" false", "event", "event", "result"]);
    assert_eq!(ledger.pending.len(), 0);

    // An error fails the turn, though the agent comes to its end.
    let turn = begin(&mut ledger, "__late_error__");
    let mut late_error = self::driver(
        vec![],
        vec![
            &answer("centaur-prompt-7", "prompt"),
            START,
            r#"{"type": "scheduling failure"}"#,
            END,
            &rest(9),
        ],
    );
    let failed = late_error.drive(&mut ledger, turn).map_err(|message| {
        let failed: Result<TurnOutcome<u64>, _> = Err(HarnessServerError::Protocol(message));
        conclusion(&failed)
    });
    assert!(matches!(
        failed,
        Err(Conclusion::Failed { message }) if message.contains("scheduling failure")
    ));
    assert_eq!(ledger.pending.len(), 1);

    // Callbacks are denied and the turn goes on; the abort of the turn before is answered late.
    let turn = begin(&mut ledger, "__ui__");
    let mut ui = self::driver(
        vec![],
        vec![
            r#"{"type": "response", "id": "centaur-abort-8", "command": "abort",
            "success": false}"#,
            &answer("centaur-prompt-10", "prompt"),
            START,
            r#"{"type": "extension_ui_request", "id": "ui-1", "method": "confirm"}"#,
            END,
            &rest(11),
        ],
    );
    assert!(!ui.drive(&mut ledger, turn).unwrap().interrupted);
    assert_eq!(
        ui.written[0],
        parse(r#"{"type": "extension_ui_response", "id": "ui-1", "cancelled": true}"#)
    );
    assert_eq!(ledger.pending.len(), 0);
    let turn = begin(&mut ledger, "__host_tool__");
    let mut host_tool = self::driver(
        vec![],
        vec![
            &answer("centaur-prompt-12", "prompt"),
            START,
            r#"{"type": "host_tool_call", "id": "tool-1", "name": "shell"}"#,
            END,
            &rest(13),
        ],
    );
    assert!(!host_tool.drive(&mut ledger, turn).unwrap().interrupted);
    assert_eq!(host_tool.written[0].get("isError"), Some(&parse("true")));
    assert_eq!(host_tool.written[0].get("id"), Some(&parse("\"tool-1\"")));

    // An interrupt aborts the turn, and the one behind it completes.
    let turn = begin(&mut ledger, "__hang__");
    let mut hung = self::driver(
        vec![TurnControl::Interrupt],
        vec![
            &answer("centaur-prompt-14", "prompt"),
            START,
            &answer("centaur-abort-15", "abort"),
            END,
            &rest(16),
        ],
    );
    let interrupted = hung.drive(&mut ledger, turn);
    assert!(interrupted.unwrap().interrupted);
    assert_eq!(hung.shown.last().map(String::as_str), Some("result"));
    let turn = begin(&mut ledger, "after abort");
    let mut after = self::driver(
        vec![],
        vec![&answer("centaur-prompt-17", "prompt"), START, END, &rest(18)],
    );
    let outcome = after.drive(&mut ledger, turn).unwrap();
    assert!(matches!(conclusion::<u64>(&Ok(outcome)), Conclusion::Completed));
}

#[test]
fn a_run_answered_by_commands_shows_their_output() {
    let mut ledger = CommandLedger::new();
    let turn = begin(&mut ledger, "__local__");
    let mut driver = driver(
        vec![],
        vec![
            r#"{"type": "command_output", "text": "local command completed"}"#,
            r#"{"type": "response", "id": "centaur-prompt-1", "command": "prompt",
            "success": true, "data": {"agentInvoked": false}}"#,
        ],
    );
    assert!(!driver.drive(&mut ledger, turn).unwrap().interrupted);
    assert_eq!(driver.shown, ["output \"local command completed\" true", "result"]);
}

#[test]
fn fake_omp_preserves_early_events_reuses_session_and_handles_local_and_chunks() {
    let settled = r#"{"type": "response", "id": "centaur-get_state-2", "command": "get_state",
        "success": true, "data": {"isStreaming": false}}"#;

    // What comes before the prompt is acknowledged is shown, in its order.
    let mut ledger = CommandLedger::new();
    let turn = begin(&mut ledger, "__early__");
    let mut early = driver(
        vec![],
        vec![START, r#"{"type": "message"}"#, r#"{"type": "message"}"#, ACK, END, settled],
    );
    assert!(!early.drive(&mut ledger, turn).unwrap().interrupted);
    assert_eq!(
        early.shown,
        ["output \"\" false", "event", "event", "event", "event", "result"]
    );

    // The next turn of the session counts on from there.
    let turn = begin(&mut ledger, "normal one");
    assert_eq!(turn.prompt_id, "centaur-prompt-3");
    let mut normal = driver(
        vec![],
        vec![
            r#"{"type": "response", "id": "centaur-prompt-3", "command": "prompt",
            "success": true}"#,
            START,
            r#"{"type": "message"}"#,
            END,
            r#"{"type": "response", "id": "centaur-get_state-4", "command": "get_state",
            "success": true, "data": {"isStreaming": false}}"#,
        ],
    );
    assert!(!normal.drive(&mut ledger, turn).unwrap().interrupted);

    let mut ledger = CommandLedger::new();
    let turn = begin(&mut ledger, "__local__");
    let mut local = driver(
        vec![],
        vec![
            r#"{"type": "command_output", "text": "local command completed"}"#,
            r#"{"type": "prompt_result", "id": "centaur-prompt-1", "agentInvoked": false}"#,
            ACK,
        ],
    );
    assert!(!local.drive(&mut ledger, turn).unwrap().interrupted);
    assert_eq!(local.shown, ["output \"local command completed\" true", "result"]);

    // A line that is a part of a frame changes nothing.
    assert!(take_received(Received::Line(Ok(None))).unwrap().is_none());

    let image = UserInput::Image { url: "data:image/png;base64,iVBORw0KGgo=".to_owned() };
    let opening = open_turn(&mut ledger, &[text("__image__"), image]).unwrap();
    let images = opening.command.get("images").and_then(|images| images.as_array()).unwrap();
    assert_eq!(images.len(), 1);
    assert_eq!(images[0].text("mimeType"), Some("image/png"));
}

#[test]
fn fake_omp_blocks_active_user_message_steers_current_turn() {
    let message = UserMessage {
        input: vec![text("steer the active turn")],
        client_user_message_id: Some("steer-message".to_owned()),
        model: None,
        provider: None,
    };
    let control = match turn_request(Some(Ok(BlocksCommand::User(message)))).unwrap() {
        TurnRequest::Control { control, client_user_message_id } => {
            assert_eq!(client_user_message_id.as_deref(), Some("steer-message"));
            control
        }
        other => panic!("a message steers the turn: {other:?}"),
    };
    let mut ledger = CommandLedger::new();
    let turn = begin(&mut ledger, "__out_of_order__");
    assert_eq!(turn.prompt_id, "centaur-prompt-1");
    let mut active = driver(
        vec![control],
        vec![
            START,
            &answer("centaur-steer-2", "steer"),
            r#"{"type": "message"}"#,
            ACK,
            END,
            &rest(3),
        ],
    );
    let outcome = active.drive(&mut ledger, turn).unwrap();
    assert!(matches!(conclusion::<u64>(&Ok(outcome)), Conclusion::Completed));
    assert_eq!(
        active.written[0],
        parse(
            r#"{"id": "centaur-steer-2", "type": "steer", "message": "steer the active turn"}"#
        )
    );
    assert_eq!(active.shown, ["output \"\" false", "event", "event", "result"]);
    assert_eq!(ledger.pending.len(), 0);

    let turn = begin(&mut ledger, "after steer");
    let mut next = driver(
        vec![],
        vec![&answer("centaur-prompt-4", "prompt"), START, END, &rest(5)],
    );
    let outcome = next.drive(&mut ledger, turn).unwrap();
    assert!(matches!(conclusion::<u64>(&Ok(outcome)), Conclusion::Completed));
}
