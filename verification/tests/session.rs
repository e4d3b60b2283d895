use omp_harness::error::protocol_error;
use omp_harness::json::{Fields, Json, Member};
use omp_harness::ledger::{CommandLedger, ControlKind};
use omp_harness::loading::{choose_binary, choose_root, verify_binary_version, BinaryChoice, VersionRun};
use omp_harness::persistence::{load_resume_mapping, plan_save, MappingFile, MetadataSeen, SessionMapping};
use omp_harness::profile::{OmpProfile, PathSeen};
use omp_harness::run::RunStep;
use omp_harness::server::{
    choose_thread_id, conclusion, requested_model, session_dir, Conclusion, OmpThread, SessionPlan,
    UserMessage,
};
use omp_harness::session::{
    begin_command, on_command_frame, remaining_wait, state_model, take_received, CommandStep,
    CommandWait, OmpSession, Received, WaitStep, STARTUP_TIMEOUT,
};
use omp_harness::prompt::{FileFacts, UserInput};
use omp_harness::setup::{ensure_model, initialize, requested_pair, LookStage, SetupStep};
use omp_harness::turn::{open_turn, Step, Turn, TurnControl, TurnOutcome, Verdict};

const ROOT: &str = "/srv/sessions";
const FILE: &str = "/srv/sessions/s.jsonl";

fn profile() -> OmpProfile {
    let checked = match choose_binary(Some("1"), Some("omp")).unwrap() {
        BinaryChoice::Search(binary) => binary,
        BinaryChoice::Locate(_) => panic!("a bare name is searched for"),
    };
    let run = VersionRun { success: true, stdout: "omp/18.3.0\n".to_owned() };
    let verified = verify_binary_version(checked, Ok(run)).unwrap();
    let choice =
        choose_root(Some("anthropic/fake-model,anthropic/fake-model-2"), Some(ROOT)).unwrap();
    OmpProfile::with_binary(verified, choice.models, choice.root)
}

fn parse(text: &str) -> serde_json::Value {
    serde_json::from_str(text).unwrap()
}

fn read(value: &serde_json::Value) -> Json {
    match value {
        serde_json::Value::Null => Json::Null,
        serde_json::Value::Bool(b) => Json::Bool(*b),
        serde_json::Value::Number(n) => match n.as_u64() {
            Some(n) => Json::Unsigned(n),
            None => Json::Number(n.to_string()),
        },
        serde_json::Value::String(s) => Json::Text(s.clone()),
        serde_json::Value::Array(items) => Json::List(items.iter().map(read).collect()),
        serde_json::Value::Object(members) => Json::Object(
            members
                .iter()
                .map(|(name, value)| Member { name: name.clone(), value: read(value) })
                .collect(),
        ),
    }
}

fn frame(text: &str) -> Json {
    read(&parse(text))
}

fn show(document: &Json) -> serde_json::Value {
    match document {
        Json::Null => serde_json::Value::Null,
        Json::Bool(b) => serde_json::Value::Bool(*b),
        Json::Unsigned(n) => serde_json::Value::from(*n),
        Json::Number(s) => parse(s),
        Json::Text(s) => serde_json::Value::String(s.clone()),
        Json::List(items) => serde_json::Value::Array(items.iter().map(show).collect()),
        Json::Object(members) => serde_json::Value::Object(
            members.iter().map(|m| (m.name.clone(), show(&m.value))).collect(),
        ),
    }
}

fn state_text(model: &str, id: &str, file: &str) -> String {
    let tools = ["bash", "edit", "glob", "grep", "lsp", "read", "task", "todo", "write"]
        .map(|name| format!(r#"{{"name": "{name}"}}"#))
        .join(",");
    format!(
        r#"{{"model": {{"provider": "anthropic", "id": "{model}"}}, "steeringMode":
        "one-at-a-time", "followUpMode": "one-at-a-time", "interruptMode": "immediate",
        "dumpTools": [{tools}], "sessionId": "{id}", "sessionFile": "{file}"}}"#
    )
}

fn there() -> PathSeen {
    PathSeen::Present { canonical: Ok(FILE.to_owned()) }
}

/// Carries a setup out: each command is answered with what `answer` gives for its name, and every
/// look finds the session file in its place.
fn carry_out(
    profile: &OmpProfile,
    first: SetupStep,
    answer: &dyn Fn(&str) -> String,
) -> (Vec<String>, Result<(Option<SessionMapping>, Json), String>) {
    let mut log = Vec::new();
    let mut step = first;
    loop {
        let next = match step {
            SetupStep::Command { name, fields, version_two, reply } => {
                log.push(format!("{name} {} {version_two}", show(&fields.object())));
                reply.answered(profile, &frame(&answer(name)))
            }
            SetupStep::Look { look } => {
                log.push(format!("{:?} {}", look.stage, look.path));
                look.looked(profile, &there())
            }
            SetupStep::Save { mapping, save } => return (log, Ok((Some(mapping), save.saved()))),
            SetupStep::Ready { state } => return (log, Ok((None, state))),
        };
        step = match next {
            Ok(step) => step,
            Err(e) => return (log, Err(e.error.message())),
        };
    }
}

fn runtime(model: &'static str) -> impl Fn(&str) -> String {
    move |name: &str| match name {
        "negotiate_protocol" => r#"{"data": {"protocolVersion": 2}}"#.to_owned(),
        "get_state" => format!(r#"{{"data": {}}}"#, state_text(model, "one", FILE)),
        "get_available_models" => r#"{"data": {"models": [{"provider": "x", "id": "fake-model"},
            {"provider": "anthropic", "id": "fake-model-2"}]}}"#
            .to_owned(),
        _ => "{}".to_owned(),
    }
}

#[test]
fn commands_carry_their_name_and_number() {
    let mut ledger = CommandLedger::new();
    let fields = Fields::new().add_text("id", "mine").add("slowChunks", Json::Bool(true));
    let (awaited, document) = begin_command(&mut ledger, "get_state", fields);
    assert_eq!((awaited.id.as_str(), awaited.name.as_str()), ("centaur-get_state-1", "get_state"));
    assert_eq!(
        show(&document),
        parse(r#"{"id": "centaur-get_state-1", "type": "get_state", "slowChunks": true}"#)
    );
}

#[test]
fn a_wait_ends_with_the_response_to_its_command() {
    let mut ledger = CommandLedger::new();
    let (awaited, _) = begin_command(&mut ledger, "set_model", Fields::new());
    let done = r#"{"type": "response", "id": "centaur-set_model-1", "command": "set_model",
        "success": true}"#;
    for (text, waits) in [
        (r#"{"type": "config_update"}"#, true),
        (r#"{"type": "agent_end", "isTerminal": true}"#, true),
        (r#"{"type": "host_uri_cancel", "id": "x"}"#, true),
        (done, false),
    ] {
        let step = on_command_frame(&awaited, &mut ledger, &frame(text)).unwrap();
        assert_eq!(matches!(step, CommandStep::Wait), waits);
        assert_eq!(matches!(step, CommandStep::Done), !waits);
    }
    let asked = frame(r#"{"type": "extension_ui_request", "id": "q", "method": "input"}"#);
    match on_command_frame(&awaited, &mut ledger, &asked).unwrap() {
        CommandStep::Reply(reply) => assert_eq!(reply.text("id"), Some("q")),
        other => panic!("the callback is denied: {other:?}"),
    }
    for (text, expected) in [
        (
            r#"{"type": "response", "id": "x"}"#,
            "OMP set_model received response for unexpected id",
        ),
        (
            r#"{"type": "response"}"#,
            "OMP set_model received response for unexpected id",
        ),
        (
            r#"{"type": "response", "id": "centaur-set_model-1", "command": "x"}"#,
            "OMP set_model response command mismatch",
        ),
        (
            r#"{"type": "response", "id": "centaur-set_model-1", "command": "set_model",
            "success": false, "error": "no"}"#,
            "OMP set_model failed: no",
        ),
        (
            r#"{"type": "response", "id": "centaur-set_model-1", "command": "set_model"}"#,
            "OMP set_model failed: unspecified error",
        ),
        (r#"{"type": "agent_end"}"#, "OMP agent_end omitted boolean isTerminal"),
        (
            r#"{"type": "message_update"}"#,
            "OMP emitted semantic frame message_update while awaiting set_model",
        ),
        (r#"{"type": 1}"#, "OMP frame is missing string type"),
    ] {
        let failed = on_command_frame(&awaited, &mut ledger, &frame(text)).unwrap_err();
        assert_eq!(failed.message(), format!("OMP protocol error: {expected}"));
    }
}

#[test]
fn late_control_responses_must_match() {
    for kind in [ControlKind::Abort, ControlKind::Steer] {
        let mut ledger = CommandLedger::new();
        let (awaited, _) = begin_command(&mut ledger, "get_available_models", Fields::new());
        ledger.pending.insert("late".to_owned(), kind, 1);
        let odd = frame(r#"{"type": "response", "id": "late", "command": "x", "success": true}"#);
        assert_eq!(
            on_command_frame(&awaited, &mut ledger, &odd).unwrap_err().message(),
            "OMP protocol error: OMP late control response mismatched"
        );
    }
}

/// Plays a turn that settles, with a control that stays unanswered where one is given, and gives the
/// identifier of the control with the outcome.
fn play_turn(
    ledger: &mut CommandLedger,
    text: &str,
    control: Option<TurnControl>,
) -> (TurnOutcome<u64>, Option<String>) {
    let opening = open_turn(ledger, &[UserInput::Text { text: text.to_owned() }]).unwrap();
    let prompt = opening.prompt_id.clone();
    let mut turn: Turn<u64> = Turn::begin(opening, 0);
    let id = control.map(|control| match turn.on_control(ledger, &control).unwrap() {
        Step::Send { command, sent } => {
            turn.sent(ledger, sent, 0);
            command.text("id").unwrap().to_owned()
        }
        other => panic!("the control is sent: {other:?}"),
    });
    let ack = format!(
        r#"{{"type": "response", "id": "{prompt}", "command": "prompt", "success": true}}"#
    );
    turn.on_frame(ledger, &frame(&ack), 64).unwrap();
    turn.on_frame(ledger, &frame(r#"{"type": "agent_start"}"#), 64).unwrap();
    let end = frame(r#"{"type": "agent_end", "isTerminal": true}"#);
    let check = match turn.on_frame(ledger, &end, 64).unwrap() {
        Step::Send { command, sent } => {
            turn.sent(ledger, sent, 0);
            command.text("id").unwrap().to_owned()
        }
        other => panic!("the state is asked for: {other:?}"),
    };
    let rest = format!(
        r#"{{"type": "response", "id": "{check}", "command": "get_state", "success": true,
        "data": {{"isStreaming": false}}}}"#
    );
    turn.on_frame(ledger, &frame(&rest), 64).unwrap();
    assert!(matches!(turn.verdict(0), Verdict::Complete));
    (turn.conclude().unwrap(), id)
}

/// Carries a setup out over the waits of a session: what comes late is taken in the first of them.
fn carry_out_late(
    profile: &OmpProfile,
    ledger: &mut CommandLedger,
    first: SetupStep,
    answer: &dyn Fn(&str) -> String,
    late: Json,
) -> Json {
    let mut late = Some(late);
    let mut step = first;
    loop {
        step = match step {
            SetupStep::Command { name, fields, reply, .. } => {
                let (awaited, _) = begin_command(ledger, name, fields);
                let id = awaited.id.clone();
                let wait = CommandWait::begin(awaited, 100, 0);
                if let Some(late) = late.take() {
                    let taken = wait.received(ledger, Received::Line(Ok(Some(late))));
                    assert!(matches!(taken, Ok(WaitStep::Wait)));
                }
                let mut response = parse(&answer(name));
                response["type"] = serde_json::Value::from("response");
                response["id"] = serde_json::Value::from(id);
                response["command"] = serde_json::Value::from(name);
                response["success"] = serde_json::Value::from(true);
                let line = Received::Line(Ok(Some(read(&response))));
                match wait.received(ledger, line).unwrap() {
                    WaitStep::Done(response) => reply.answered(profile, &response).unwrap(),
                    other => panic!("the command is answered: {other:?}"),
                }
            }
            SetupStep::Look { look } => look.looked(profile, &there()).unwrap(),
            SetupStep::Ready { state } => {
                assert!(late.is_none());
                return state;
            }
            SetupStep::Save { .. } => panic!("a session that runs is not recorded again"),
        };
    }
}

#[test]
fn fake_omp_late_control_responses_are_consumed_between_turns() {
    let profile = profile();
    for name in ["abort", "steer"] {
        let mut ledger = CommandLedger::new();
        play_turn(&mut ledger, "before late response", None);
        let control = if name == "abort" {
            TurnControl::Interrupt
        } else {
            TurnControl::Steer(vec![UserInput::Text { text: "steer".to_owned() }])
        };
        let (ended, id) = play_turn(&mut ledger, &format!("__late_{name}__"), Some(control));
        assert_eq!(ended.interrupted, name == "abort");
        assert_eq!(ledger.pending.len(), 1);

        let late = frame(&format!(
            r#"{{"type": "response", "id": "{}", "command": "{name}", "success": false}}"#,
            id.unwrap()
        ));
        let state = frame(&state_text("fake-model", "one", FILE));
        let change =
            ensure_model(&profile, "t", &state, "anthropic", "fake-model-2").unwrap();
        let state =
            carry_out_late(&profile, &mut ledger, change, &runtime("fake-model-2"), late);
        assert_eq!(state_model(&state).unwrap().1, "fake-model-2");
        assert_eq!(state.text("sessionId"), Some("one"));
        assert_eq!(ledger.pending.len(), 0);

        let (next, _) = play_turn(&mut ledger, "after late response", None);
        assert!(matches!(conclusion::<u64>(&Ok(next)), Conclusion::Completed));
    }
}

#[test]
fn slow_chunked_command_response_obeys_one_deadline() {
    let timeout: u64 = 200_000_000;
    let started: u64 = 1_000;
    let mut now = started;
    let mut waits = 0;
    let error = loop {
        match remaining_wait(started, timeout, now) {
            Ok(remaining) => {
                assert_eq!(now + remaining, started + timeout);
                waits += 1;
                now += 30_000_000;
            }
            Err(error) => break error,
        }
    };
    assert!(error.message().contains("timed out"));
    assert_eq!(waits, 7);
    assert!(now - started < 1_000_000_000);
    assert_eq!(remaining_wait(5, 3, 4).unwrap(), 3);
    assert_eq!(STARTUP_TIMEOUT, 15_000_000_000);
}

#[test]
fn a_wait_takes_frames_until_the_response_or_the_deadline() {
    let mut ledger = CommandLedger::new();
    let (awaited, _) = begin_command(&mut ledger, "get_state", Fields::new());
    let wait = CommandWait::begin(awaited, 200, 1_000);
    assert_eq!(wait.remaining(1_050).unwrap(), 150);
    let mut take = |received| wait.received(&mut ledger, received);
    assert!(matches!(take(Received::Line(Ok(None))), Ok(WaitStep::Wait)));
    let line = |text: &str| Received::Line(Ok(Some(frame(text))));
    assert!(matches!(take(line(r#"{"type": "model_changed"}"#)), Ok(WaitStep::Wait)));
    assert!(matches!(
        take(line(r#"{"type": "host_tool_call", "id": "h"}"#)),
        Ok(WaitStep::Reply(reply)) if reply.text("id") == Some("h")
    ));
    let done = r#"{"type": "response", "id": "centaur-get_state-1", "command": "get_state",
        "success": true, "data": {"n": 1}}"#;
    assert!(matches!(
        take(line(done)),
        Ok(WaitStep::Done(response)) if response.nested("data", "n").is_some()
    ));
    assert!(take(line(r#"{"type": "message_update"}"#)).is_err());
    assert!(take(Received::Timeout).unwrap_err().message().contains("timed out"));
    assert!(wait.remaining(1_200).unwrap_err().message().contains("timed out"));
}

#[test]
fn what_the_process_gives_is_told_apart() {
    let message = |received| take_received(received).unwrap_err().message();
    assert!(take_received(Received::Line(Ok(None))).unwrap().is_none());
    let notice = frame(r#"{"type": "notice", "level": "warn", "source": "session-persistence"}"#);
    assert!(take_received(Received::Line(Ok(Some(notice)))).unwrap().is_some());
    assert_eq!(
        message(Received::Line(Err(protocol_error("malformed")))),
        "OMP protocol error: malformed"
    );
    assert_eq!(message(Received::StdoutError("broken".to_owned())), "broken");
    assert_eq!(message(Received::Timeout), "OMP protocol error: OMP frame wait timed out");
    let stderr = || ": trace".to_owned();
    assert_eq!(
        message(Received::Disconnected { stderr: stderr() }),
        "OMP protocol error: OMP stdout reader disconnected: trace"
    );
    assert_eq!(
        message(Received::Eof { status: Ok(None), stderr: stderr() }),
        "OMP protocol error: OMP stdout closed unexpectedly: trace"
    );
    assert_eq!(
        message(Received::Eof { status: Ok(Some("signal: 9".to_owned())), stderr: stderr() }),
        "omp exited with signal: 9: trace"
    );
    assert_eq!(
        message(Received::Eof { status: Err("no child".to_owned()), stderr: stderr() }),
        "no child"
    );
}

#[test]
fn a_session_starts_by_negotiation_and_is_recorded() {
    let profile = profile();
    let first = initialize("thread", "", "", None, &vec![1, 2]).unwrap();
    let (log, ended) = carry_out(&profile, first, &runtime("fake-model"));
    assert_eq!(
        log,
        [
            r#"negotiate_protocol {"protocolVersion":2} false"#,
            r#"set_host_tools {"tools":[]} true"#,
            r#"set_host_uri_schemes {"schemes":[]} true"#,
            r#"set_subagent_subscription {"level":"off"} true"#,
            r#"set_steering_mode {"mode":"one-at-a-time"} true"#,
            r#"set_follow_up_mode {"mode":"one-at-a-time"} true"#,
            r#"set_interrupt_mode {"mode":"immediate"} true"#,
            r#"get_state {} true"#,
            "Model /srv/sessions/s.jsonl",
            "Startup /srv/sessions/s.jsonl",
            "Record /srv/sessions/s.jsonl",
        ]
    );
    let (mapping, state) = ended.unwrap();
    let mapping = mapping.unwrap();
    assert_eq!(
        (mapping.thread_id.as_str(), mapping.session_id.as_str(), mapping.session_file.as_str()),
        ("thread", "one", FILE)
    );
    assert_eq!(state.text("sessionId"), Some("one"));
}

#[test]
fn a_session_needs_the_second_version() {
    assert_eq!(
        initialize("t", "", "", None, &vec![1]).unwrap_err().message(),
        "OMP protocol error: centaur-safe requires OMP protocol v2"
    );
    let first = initialize("t", "", "", None, &vec![2]).unwrap();
    let (log, ended) = carry_out(&profile(), first, &|_| "{}".to_owned());
    assert_eq!(log.len(), 1);
    assert_eq!(
        ended.unwrap_err(),
        "OMP protocol error: OMP v2 negotiation returned the wrong version"
    );
}

#[test]
fn a_resumed_session_must_be_the_same() {
    let profile = profile();
    let resume = |id: &str, file: &str| {
        let mapping = SessionMapping::new("t", id.to_owned(), file.to_owned());
        initialize("t", "", "", Some(&mapping), &vec![2]).unwrap()
    };
    let first = resume("one", "/srv/sessions/./s.jsonl");
    let (log, ended) = carry_out(&profile, first, &runtime("fake-model"));
    assert_eq!(log[1], r#"switch_session {"sessionPath":"/srv/sessions/./s.jsonl"} true"#);
    assert!(ended.unwrap().0.is_some());
    for (id, file) in [("two", FILE), ("one", "/srv/sessions/other.jsonl")] {
        let (_, ended) = carry_out(&profile, resume(id, file), &runtime("fake-model"));
        assert_eq!(
            ended.unwrap_err(),
            "OMP protocol error: OMP resumed a different persisted session"
        );
    }
}

#[test]
fn models_are_changed_and_confirmed() {
    let profile = profile();
    let state = frame(&state_text("fake-model", "one", FILE));
    let same = ensure_model(&profile, "t", &state, "", "").unwrap();
    let (log, ended) = carry_out(&profile, same, &runtime("fake-model"));
    assert_eq!(log, ["Model /srv/sessions/s.jsonl"]);
    assert!(ended.unwrap().0.is_none());

    let change = ensure_model(&profile, "t", &state, "", "anthropic/fake-model-2").unwrap();
    let (log, ended) = carry_out(&profile, change, &runtime("fake-model-2"));
    assert_eq!(
        log,
        [
            r#"get_available_models {} true"#,
            r#"set_model {"modelId":"fake-model-2","provider":"anthropic"} true"#,
            r#"get_state {} true"#,
            "Model /srv/sessions/s.jsonl",
        ]
    );
    let state_after = ended.unwrap().1;
    assert_eq!(
        state_model(&state_after).unwrap(),
        ("anthropic".to_owned(), "fake-model-2".to_owned())
    );

    let ignored = ensure_model(&profile, "t", &state, "anthropic", "fake-model-2").unwrap();
    let (_, ended) = carry_out(&profile, ignored, &runtime("fake-model"));
    assert_eq!(
        ended.unwrap_err(),
        "OMP protocol error: OMP effective provider/model differs from the selected allowlisted \
         model"
    );
    let absent = ensure_model(&profile, "t", &state, "anthropic", "fake-model-2").unwrap();
    let (_, ended) = carry_out(&profile, absent, &|_| r#"{"data": {"models": []}}"#.to_owned());
    assert_eq!(
        ended.unwrap_err(),
        "OMP protocol error: requested OMP provider/model is unavailable in the pinned runtime"
    );
    let silent = ensure_model(&profile, "t", &state, "anthropic", "fake-model-2").unwrap();
    let (_, ended) = carry_out(&profile, silent, &|name| match name {
        "get_state" => "{}".to_owned(),
        other => runtime("fake-model")(other),
    });
    assert_eq!(ended.unwrap_err(), "OMP protocol error: OMP get_state response omitted data");
}

#[test]
fn fake_omp_turn_setup_error_emits_failed_terminal() {
    let state = frame(&state_text("fake-model", "one", FILE));
    let rejected = ensure_model(&profile(), "t", &state, "anthropic", "not-allowlisted");
    let failure = rejected.unwrap_err();
    assert_eq!(show(&failure.state), show(&state));
    assert_eq!(
        failure.error.message(),
        "OMP protocol error: OMP provider/model anthropic/not-allowlisted is not in the operator \
         allowlist"
    );
    let failed: Result<TurnOutcome<u64>, _> = Err(failure.error);
    assert!(matches!(
        conclusion(&failed),
        Conclusion::Failed { message } if message.contains("not in the operator allowlist")
    ));
}

#[test]
fn a_failed_model_change_leaves_the_state_that_was_read() {
    let profile = profile();
    let state = frame(&state_text("fake-model", "one", FILE));
    let read = frame(&state_text("fake-model", "two", FILE));
    let first = ensure_model(&profile, "t", &state, "anthropic", "fake-model-2").unwrap();
    let mut step = first;
    let failure = loop {
        step = match step {
            SetupStep::Command { name, reply, .. } => {
                let response = match name {
                    "get_state" => {
                        format!(r#"{{"data": {}}}"#, state_text("fake-model", "two", FILE))
                    }
                    other => runtime("fake-model")(other),
                };
                match reply.answered(&profile, &frame(&response)) {
                    Ok(step) => step,
                    Err(failure) => break failure,
                }
            }
            other => panic!("the model differs: {other:?}"),
        };
    };
    assert_eq!(show(&failure.state), show(&read));
    let mut session = OmpSession::new(profile, "t");
    session.finish_setup(state);
    assert_eq!(session.state().text("sessionId"), Some("one"));
    let error = session.fail_setup(failure);
    assert_eq!(
        error.message(),
        "OMP protocol error: OMP effective provider/model differs from the selected allowlisted \
         model"
    );
    assert_eq!(session.state().text("sessionId"), Some("two"));
    assert_eq!(state_model(session.state()).unwrap().1, "fake-model");

    let silent = ensure_model(&session.profile, "t", &read, "", "anthropic/fake-model-2").unwrap();
    let SetupStep::Command { reply, .. } = silent else { panic!("the models are asked for") };
    let unlisted = reply.answered(&session.profile, &frame("{}")).unwrap_err();
    assert_eq!(show(&unlisted.state), show(&read));
    let same = ensure_model(&session.profile, "t", &read, "", "").unwrap();
    let SetupStep::Look { look } = same else { panic!("it is looked where the file leads") };
    let elsewhere = PathSeen::Present { canonical: Ok("/etc/passwd".to_owned()) };
    let failed = look.looked(&session.profile, &elsewhere).unwrap_err();
    assert_eq!(show(&failed.state), show(&read));
}

#[test]
fn models_are_asked_for_in_three_ways() {
    let pair = |p: &str, m: &str| requested_pair(p, m).unwrap();
    assert_eq!(pair("", ""), None);
    assert_eq!(pair("a", "b/c"), Some(("a".to_owned(), "b/c".to_owned())));
    assert_eq!(pair("", "a/b/c"), Some(("a".to_owned(), "b/c".to_owned())));
    for model in ["a", "/a", "a/"] {
        assert_eq!(
            requested_pair("", model).unwrap_err().message(),
            "OMP protocol error: OMP model overrides without a provider must use provider/model"
        );
    }
    assert_eq!(
        requested_pair("a", "").unwrap_err().message(),
        "OMP protocol error: OMP provider and model must be selected together"
    );
}

#[test]
fn states_name_their_model() {
    let message = |text: &str| state_model(&frame(text)).unwrap_err().message();
    for text in ["{}", r#"{"model": {"id": "m"}}"#, r#"{"model": {"provider": ""}}"#] {
        assert_eq!(
            message(text),
            "OMP protocol error: OMP state omitted effective model provider"
        );
    }
    for text in
        [r#"{"model": {"provider": "p"}}"#, r#"{"model": {"provider": "p", "id": ""}}"#]
    {
        assert_eq!(message(text), "OMP protocol error: OMP state omitted effective model id");
    }
}

#[test]
fn setup_fails_where_the_session_lies_elsewhere() {
    let profile = profile();
    let outside = frame(&state_text("fake-model", "one", "/etc/passwd"));
    assert_eq!(
        ensure_model(&profile, "t", &outside, "", "").unwrap_err().error.message(),
        "OMP protocol error: OMP session path escapes the operator session root"
    );
    let state = frame(&state_text("fake-model", "one", FILE));
    match ensure_model(&profile, "t", &state, "", "").unwrap() {
        SetupStep::Look { look } => {
            assert_eq!((look.stage, look.path.as_str()), (LookStage::Model, FILE));
            let elsewhere = PathSeen::Present { canonical: Ok("/etc/passwd".to_owned()) };
            assert!(look.looked(&profile, &elsewhere).is_err());
        }
        other => panic!("it is looked where the file leads: {other:?}"),
    }
}

#[test]
fn a_new_session_has_nothing_yet() {
    let session = OmpSession::new(profile(), "t");
    assert_eq!(session.thread_id, "t");
    assert!(matches!(session.state(), Json::Null));
    assert_eq!(session.ledger.next_id, 1);
    assert_eq!(session.profile.session_root(), ROOT);
}

/// Starts a session for a thread, resuming the one that it is mapped to, and gives the mapping that
/// is recorded for it.
fn start(profile: &OmpProfile, thread: &str, resume: Option<&SessionMapping>) -> SessionMapping {
    let first = initialize(thread, "", "", resume, &vec![2]).unwrap();
    let (log, ended) = carry_out(profile, first, &runtime("fake-model"));
    let switched = log.iter().any(|line| line.starts_with("switch_session"));
    assert_eq!(switched, resume.is_some());
    ended.unwrap().0.unwrap()
}

/// Writes the mapping of a thread and reads it again.
fn stored(profile: &OmpProfile, thread: &str, mapping: SessionMapping) -> SessionMapping {
    let plan =
        plan_save(profile, &mapping, &there(), None, Ok(b"{}".to_vec()), "unique").unwrap();
    let file = MappingFile {
        is_symlink: Some(false),
        metadata: MetadataSeen::Found(FileFacts {
            is_file: true,
            len: plan.contents.len() as u64,
        }),
        read: Ok(plan.contents),
        parsed: Ok(mapping),
        session: there(),
    };
    load_resume_mapping(profile, thread, file).unwrap()
}

fn thread(id: &str) -> OmpThread<u32> {
    OmpThread {
        id: id.to_owned(),
        cwd: "/work".to_owned(),
        session_dir: session_dir(ROOT, id),
        session: None,
        started: false,
    }
}

/// Fails a turn with a line that is no frame, as the runtime's `__malformed__` does.
fn malformed_turn(ledger: &mut CommandLedger) -> Result<TurnOutcome<u64>, String> {
    let input = [UserInput::Text { text: "__malformed__".to_owned() }];
    let opening = open_turn(ledger, &input).unwrap();
    let turn: Turn<u64> = Turn::begin(opening, 0);
    let line = Received::Line(Err(protocol_error("OMP stdout is not JSON")));
    match turn.run() {
        RunStep::Poll { control } => match control.polled(ledger, None, 1).unwrap() {
            RunStep::Receive { frame } => {
                let error = frame.received(ledger, take_received(line), 64, 2).unwrap_err();
                let failed = Err(error);
                match conclusion::<u64>(&failed) {
                    Conclusion::Failed { message } => Err(message),
                    other => panic!("the turn fails: {other:?}"),
                }
            }
            other => panic!("{other:?}"),
        },
        other => panic!("{other:?}"),
    }
}

#[test]
fn fake_omp_fails_closed_on_malformed_stdout_then_lazily_restarts_and_resumes() {
    let profile = profile();
    let mut thread = thread("thread");
    assert_eq!(thread.plan_session(false), SessionPlan::Start);
    let initial = start(&profile, "thread", None);
    thread.session = Some(1);

    let message = malformed_turn(&mut CommandLedger::new()).unwrap_err();
    assert_eq!(message, "OMP protocol error: OMP stdout is not JSON");
    thread.close_turn(&Conclusion::Failed { message });
    assert_eq!(thread.session, None);

    assert_eq!(thread.plan_session(false), SessionPlan::Start);
    let (id, file) = (initial.session_id.clone(), initial.session_file.clone());
    let mapping = stored(&profile, "thread", initial);
    let restarted = start(&profile, "thread", Some(&mapping));
    assert_eq!((restarted.session_id, restarted.session_file), (id, file));
}

#[test]
fn fake_omp_recovers_existing_thread_resume_after_protocol_error() {
    let profile = profile();
    let initial = start(&profile, "thread", None);
    let id = initial.session_id.clone();
    let message = malformed_turn(&mut CommandLedger::new()).unwrap_err();
    let mut thread = thread("thread");
    thread.session = Some(1);
    thread.close_turn(&Conclusion::Failed { message });
    assert_eq!(thread.id, "thread");
    let mapping = stored(&profile, "thread", initial);
    assert_eq!(mapping.thread_id, "thread");
    assert_eq!(start(&profile, "thread", Some(&mapping)).session_id, id);
}

#[test]
fn fake_omp_blocks_restart_preserves_session_identity() {
    let profile = profile();
    let first = thread(&choose_thread_id(Some("key")));
    let initial = start(&profile, &first.id, None);
    let id = initial.session_id.clone();
    let second = thread(&choose_thread_id(Some("key")));
    assert_eq!((&first.id, &first.session_dir), (&second.id, &second.session_dir));
    let mapping = stored(&profile, &second.id, initial);
    assert_eq!(start(&profile, &second.id, Some(&mapping)).session_id, id);
}

#[test]
fn fake_omp_blocks_mode_uses_same_stateful_runtime() {
    let profile = profile();
    let message = |text: &str| UserMessage {
        input: vec![UserInput::Text { text: text.to_owned() }],
        client_user_message_id: None,
        model: Some("fake-model".to_owned()),
        provider: Some("anthropic".to_owned()),
    };
    let mut thread = thread("thread");
    let turn = message("blocks turn");
    let (provider, model) = requested_model(&turn);
    assert_eq!((provider, model), ("anthropic", "fake-model"));
    assert_eq!(thread.plan_session(false), SessionPlan::Start);
    let first = initialize(&thread.id, provider, model, None, &vec![2]).unwrap();
    let (_, ended) = carry_out(&profile, first, &runtime("fake-model"));
    let (mapping, state) = ended.unwrap();
    assert!(mapping.is_some());
    thread.session = Some(1);
    assert!(thread.announce());
    thread.close_turn(&Conclusion::Completed);

    let turn = message("document path accepted");
    let (provider, model) = requested_model(&turn);
    assert_eq!(thread.plan_session(false), SessionPlan::EnsureModel);
    let again = ensure_model(&profile, &thread.id, &state, provider, model).unwrap();
    let (log, ended) = carry_out(&profile, again, &runtime("fake-model"));
    assert_eq!(log, ["Model /srv/sessions/s.jsonl"]);
    let (mapping, after) = ended.unwrap();
    assert!(mapping.is_none());
    assert_eq!(after.text("sessionId"), state.text("sessionId"));
    assert!(!thread.announce());
    assert_eq!(thread.session, Some(1));
}

#[test]
fn fake_omp_forced_abort_restarts_and_resumes_before_next_turn() {
    let profile = profile();
    let mut thread = thread("thread");
    let mut ledger = CommandLedger::new();
    let initial = start(&profile, "thread", None);
    let id = initial.session_id.clone();
    thread.session = Some(1);
    play_turn(&mut ledger, "before forced abort", None);

    let input = [UserInput::Text { text: "__ignore_abort__".to_owned() }];
    let opening = open_turn(&mut ledger, &input).unwrap();
    let turn: Turn<u64> = Turn::begin(opening, 0);
    let mut step = turn.run();
    let mut controls = vec![TurnControl::Interrupt];
    let mut now: u64 = 0;
    let result = loop {
        step = match step {
            RunStep::Poll { control } => {
                control.polled(&mut ledger, controls.pop().as_ref(), now).unwrap()
            }
            RunStep::Write { command, write } => {
                assert_eq!(command.text("type"), Some("abort"));
                write.written(&mut ledger, now)
            }
            RunStep::Receive { frame } => {
                now += 50_000_000;
                let nothing = take_received(Received::Timeout);
                frame.received(&mut ledger, nothing, 64, now).unwrap()
            }
            RunStep::Stop { end } => break end.ended(),
            other => panic!("the abort is ignored: {other:?}"),
        };
    };
    assert!(now >= 5_000_000_000);
    let ended = conclusion(&result);
    assert!(matches!(ended, Conclusion::Cancelled));
    thread.close_turn(&ended);
    assert_eq!(thread.session, Some(1));

    // The process was stopped, so the next turn starts another and resumes the session.
    assert_eq!(thread.plan_session(true), SessionPlan::Start);
    assert_eq!(thread.session, None);
    let mapping = stored(&profile, "thread", initial);
    assert_eq!(start(&profile, "thread", Some(&mapping)).session_id, id);
    let (next, _) = play_turn(&mut CommandLedger::new(), "after forced abort", None);
    assert!(matches!(conclusion::<u64>(&Ok(next)), Conclusion::Completed));
}
