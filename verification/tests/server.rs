use omp_harness::error::{protocol_error, HarnessServerError};
use omp_harness::prompt::UserInput;
use omp_harness::protocol::Model;
use omp_harness::server::{
    choose_thread_id, conclusion, dispatch, fresh_turn_id, input_line, model_labels,
    requested_model, session_dir, session_dir_for, session_root, thread_key, turn_id_for,
    turn_request, BlocksCommand, Conclusion, Dispatch, OmpThread, SessionPlan, TurnRequest,
    UserMessage,
};
use omp_harness::turn::{TurnControl, TurnOutcome};

fn message(text: &str) -> UserMessage {
    UserMessage {
        input: vec![UserInput::Text { text: text.to_owned() }],
        client_user_message_id: Some("steer-message".to_owned()),
        model: None,
        provider: Some("anthropic".to_owned()),
    }
}

#[test]
fn thread_keeps_its_key_or_gets_a_fresh_one() {
    assert_eq!(choose_thread_id(Some(" key ")), " key ");
    assert_eq!(thread_key(Some("\t \n")), None);
    assert_eq!(thread_key(None), None);
    let fresh = choose_thread_id(Some(" "));
    assert_eq!(fresh.len(), 36);
    assert_eq!(fresh.chars().filter(|c| *c == '-').count(), 4);
    assert_ne!(fresh, choose_thread_id(None));
}

#[test]
fn sessions_lie_below_their_root() {
    assert_eq!(session_root(Some("/srv"), Some("/home/agent")), "/srv");
    assert_eq!(session_root(None, Some("/home/agent")), "/home/agent/.omp/centaur-sessions");
    assert_eq!(session_root(None, None), "./.omp/centaur-sessions");
    assert_eq!(
        session_dir("/srv", "abc"),
        "/srv/ba7816bf8f01cfea414140de5dae2223b00361a396177a9cb410ff61f20015ad"
    );
    assert_eq!(session_dir_for("/srv/", &[1, 171]), "/srv/01ab");
}

#[test]
fn blank_lines_are_skipped() {
    assert_eq!(input_line("  {\"a\": 1}\r\n"), Some("{\"a\": 1}"));
    assert_eq!(input_line(" \t"), None);
    assert_eq!(input_line(""), None);
}

#[test]
fn commands_between_turns() {
    assert!(matches!(
        dispatch(Ok(BlocksCommand::User(message("hi")))),
        Dispatch::Turn(m) if m.input.len() == 1
    ));
    assert!(matches!(dispatch(Ok(BlocksCommand::Interrupt)), Dispatch::Ignore));
    assert!(matches!(dispatch(Ok(BlocksCommand::AttachmentChunk)), Dispatch::Ignore));
    assert!(matches!(dispatch(Err("bad".to_owned())), Dispatch::Report(e) if e == "bad"));
    assert_eq!(requested_model(&message("hi")), ("anthropic", ""));
}

#[test]
fn a_message_steers_the_turn_that_runs() {
    let request = turn_request(Some(Ok(BlocksCommand::User(message("steer the active turn")))));
    match request.unwrap() {
        TurnRequest::Control { control: TurnControl::Steer(input), client_user_message_id } => {
            assert!(matches!(
                &input[0],
                UserInput::Text { text } if text == "steer the active turn"
            ));
            assert_eq!(client_user_message_id.as_deref(), Some("steer-message"));
        }
        other => panic!("a message steers the turn: {other:?}"),
    }
}

#[test]
fn commands_while_a_turn_runs() {
    assert!(matches!(turn_request(None), Ok(TurnRequest::Quiet)));
    assert!(matches!(
        turn_request(Some(Ok(BlocksCommand::AttachmentChunk))),
        Ok(TurnRequest::Again)
    ));
    assert!(matches!(
        turn_request(Some(Ok(BlocksCommand::Interrupt))),
        Ok(TurnRequest::Control { control: TurnControl::Interrupt, client_user_message_id: None })
    ));
    assert!(matches!(
        turn_request(Some(Err("garbled".to_owned()))),
        Err(HarnessServerError::Protocol(m)) if m == "garbled"
    ));
}

#[test]
fn sessions_are_reused_until_they_exit_or_fail() {
    let mut thread = OmpThread {
        id: "t".to_owned(),
        cwd: "/work".to_owned(),
        session_dir: "/srv/t".to_owned(),
        session: None,
        started: false,
    };
    assert_eq!(thread.plan_session(false), SessionPlan::Start);
    thread.session = Some(7);
    assert_eq!(thread.plan_session(false), SessionPlan::EnsureModel);
    assert_eq!(thread.session, Some(7));
    thread.close_turn(&Conclusion::Cancelled);
    thread.close_turn(&Conclusion::Completed);
    assert_eq!(thread.session, Some(7));
    thread.close_turn(&Conclusion::Failed { message: "x".to_owned() });
    assert_eq!(thread.session, None);
    thread.session = Some(8);
    assert_eq!(thread.plan_session(true), SessionPlan::Start);
    assert_eq!(thread.session, None);
}

#[test]
fn a_thread_is_announced_once() {
    let mut thread = OmpThread {
        id: "t".to_owned(),
        cwd: "/work".to_owned(),
        session_dir: "/srv/t".to_owned(),
        session: Some(7),
        started: false,
    };
    assert!(thread.announce());
    thread.close_turn(&Conclusion::Failed { message: "x".to_owned() });
    assert_eq!(thread.plan_session(false), SessionPlan::Start);
    assert!(thread.started);
    assert!(!thread.announce());
    assert!(!thread.announce());
    assert!(thread.started);
    assert_eq!(thread.id, "t");
}

#[test]
fn turns_are_named_and_concluded() {
    assert_eq!(turn_id_for("abc"), "turn-abc");
    let id = fresh_turn_id();
    let unique = id.strip_prefix("turn-").unwrap();
    assert_eq!(unique.len(), 32);
    assert!(unique.chars().all(|c| "0123456789abcdef".contains(c)));
    assert_ne!(id, fresh_turn_id());
    let ended = |interrupted| Ok(TurnOutcome { interrupted, usage: None::<u64> });
    assert!(matches!(conclusion(&ended(true)), Conclusion::Cancelled));
    assert!(matches!(conclusion(&ended(false)), Conclusion::Completed));
    let failed: Result<TurnOutcome<u64>, _> = Err(protocol_error("x"));
    assert!(matches!(
        conclusion(&failed),
        Conclusion::Failed { message } if message == "OMP protocol error: x"
    ));
    let model = Model { provider: "p".to_owned(), id: "m".to_owned() };
    assert_eq!(model_labels(Some(&model)), ("p".to_owned(), "m".to_owned()));
    assert_eq!(model_labels(None), (String::new(), String::new()));
}
