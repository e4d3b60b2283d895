use omp_harness::error::{bounded_error, protocol_error, HarnessKind, HarnessServerError};
use omp_harness::json::{Fields, Json};
use omp_harness::ledger::{CommandLedger, ControlKind};
use omp_harness::names::NameSet;
use omp_harness::protocol::{
    deny_callback, frame_type, is_privileged_callback, is_state_notification, parse_ready, Greeting,
};
use omp_harness::text::{
    contains, decimal, hex, is_before, join, split_once, strip_prefix, strip_suffix, trim,
};

#[test]
fn protocol_errors_carry_a_prefix() {
    assert_eq!(protocol_error("x").message(), "OMP protocol error: x");
    let exited = HarnessServerError::HarnessExited {
        kind: HarnessKind::Omp,
        status: "exit status: 1".to_owned(),
        stderr: ": oops".to_owned(),
    };
    assert_eq!(exited.message(), "omp exited with exit status: 1: oops");
}

#[test]
fn long_errors_are_cut_at_a_character() {
    assert_eq!(bounded_error(None), "unspecified error");
    assert_eq!(bounded_error(Some("short")), "short");
    let full = "a".repeat(4096);
    assert_eq!(bounded_error(Some(&full)), full);
    assert_eq!(bounded_error(Some(&"a".repeat(4097))), format!("{full} [truncated]"));
    let wide = format!("{}é{}", "a".repeat(4095), "b".repeat(10));
    assert_eq!(bounded_error(Some(&wide)), format!("{} [truncated]", "a".repeat(4095)));
}

#[test]
fn greeting_must_be_of_the_first_version() {
    assert!(parse_ready(&Greeting::Ready { protocol_version: 1 }).is_ok());
    assert_eq!(
        parse_ready(&Greeting::Ready { protocol_version: 2 }).unwrap_err().message(),
        "OMP protocol error: expected OMP RPC protocol v1"
    );
}

fn frame(kind: &str, members: &[(&str, &str)]) -> Json {
    let mut fields = Fields::new().add_text("type", kind);
    for (name, value) in members {
        fields = fields.add_text(name, value);
    }
    fields.object()
}

#[test]
fn frames_have_a_type() {
    assert_eq!(frame_type(&frame("x", &[])).unwrap(), "x");
    for other in [Json::Null, Fields::new().add("type", Json::Unsigned(1)).object()] {
        assert_eq!(
            frame_type(&other).unwrap_err().message(),
            "OMP protocol error: OMP frame is missing string type"
        );
    }
    for kind in [
        "available_commands_update",
        "config_update",
        "session_info_update",
        "thinking_level_changed",
        "model_changed",
        "config_warnings_changed",
        "advisor_cost_changed",
    ] {
        assert!(is_state_notification(kind) && !is_privileged_callback(kind));
    }
    for kind in [
        "extension_ui_request",
        "host_tool_call",
        "host_tool_cancel",
        "host_uri_request",
        "host_uri_cancel",
    ] {
        assert!(is_privileged_callback(kind) && !is_state_notification(kind));
    }
    assert!(!is_state_notification("agent_start") && !is_privileged_callback("response"));
}

#[test]
fn callbacks_are_denied() {
    let reply = |frame: &Json| deny_callback(frame).unwrap().map(|reply| show(&reply));
    for method in
        ["cancel", "notify", "setStatus", "setWidget", "setTitle", "set_editor_text", "open_url"]
    {
        assert_eq!(reply(&frame("extension_ui_request", &[("method", method)])), None);
    }
    for method in ["select", "confirm", "input", "editor"] {
        assert_eq!(
            reply(&frame("extension_ui_request", &[("method", method), ("id", "7")])).unwrap(),
            parse(r#"{"type": "extension_ui_response", "id": "7", "cancelled": true}"#)
        );
    }
    assert_eq!(
        reply(&frame("host_tool_call", &[("id", "8")])).unwrap(),
        parse(
            r#"{"type": "host_tool_result", "id": "8", "isError": true, "result": {"content":
            [{"type": "text", "text": "Host tools are disabled by centaur-safe"}]}}"#
        )
    );
    assert_eq!(
        reply(&frame("host_uri_request", &[("id", "9")])).unwrap(),
        parse(
            r#"{"type": "host_uri_result", "id": "9", "isError": true,
            "error": "Host URIs are disabled by centaur-safe"}"#
        )
    );
    assert_eq!(reply(&frame("host_tool_cancel", &[("id", "8")])), None);
    assert_eq!(reply(&frame("host_uri_cancel", &[("id", "8")])), None);
    let message = |frame: &Json| deny_callback(frame).unwrap_err().message();
    assert_eq!(
        message(&frame("host_tool_call", &[])),
        "OMP protocol error: OMP privileged callback omitted string id"
    );
    assert_eq!(
        message(&frame("extension_ui_request", &[("id", "1"), ("method", "eval")])),
        "OMP protocol error: unknown OMP extension UI request"
    );
    assert_eq!(
        message(&frame("other", &[("id", "1")])),
        "OMP protocol error: unknown privileged OMP callback"
    );
}

fn parse(text: &str) -> serde_json::Value {
    serde_json::from_str(text).unwrap()
}

fn show(document: &Json) -> serde_json::Value {
    match document {
        Json::Null => serde_json::Value::Null,
        Json::Bool(b) => serde_json::Value::Bool(*b),
        Json::Unsigned(n) => serde_json::Value::from(*n),
        Json::Number(s) => parse(s),
        Json::Text(s) => serde_json::Value::String(s.clone()),
        Json::List(items) => serde_json::Value::Array(items.iter().map(show).collect()),
        Json::Object(members) => serde_json::Value::Object(
            members.iter().map(|m| (m.name.clone(), show(&m.value))).collect(),
        ),
    }
}

#[test]
fn documents_are_read_by_name() {
    let inner = Fields::new().add("n", Json::Unsigned(5)).object();
    let document = Fields::new()
        .add_text("a", "x")
        .add("b", Json::Bool(true))
        .add("c", Json::List(vec![Json::Null]))
        .add("d", inner)
        .object();
    assert_eq!(document.text("a"), Some("x"));
    assert_eq!(document.text("b"), None);
    assert_eq!(document.flag("b"), Some(true));
    assert_eq!(document.get("c").and_then(|c| c.as_array()).map(|c| c.len()), Some(1));
    assert_eq!(document.nested("d", "n").and_then(|n| n.as_u64()), Some(5));
    assert!(document.nested("a", "n").is_none() && document.get("e").is_none());
    assert_eq!(show(&document.duplicate()), show(&document));
    let put = Fields::new().add_text("a", "x").put("b", Json::Null).put("a", Json::Bool(false));
    assert_eq!(show(&put.object()), parse(r#"{"a": false, "b": null}"#));
}

#[test]
fn command_numbers_count_up_and_stop_at_the_largest() {
    let mut ledger = CommandLedger::new();
    assert_eq!(ledger.command_id("prompt"), "centaur-prompt-1");
    assert_eq!(ledger.command_id("get_state"), "centaur-get_state-2");
    ledger.next_id = u64::MAX;
    assert_eq!(ledger.command_id("abort"), "centaur-abort-18446744073709551615");
    assert_eq!(ledger.command_id("abort"), "centaur-abort-18446744073709551615");
}

#[test]
fn pending_controls_are_kept_by_identifier() {
    let mut ledger = CommandLedger::new();
    ledger.pending.insert("a".to_owned(), ControlKind::Steer, 1);
    ledger.pending.insert("b".to_owned(), ControlKind::Abort, 2);
    ledger.pending.insert("a".to_owned(), ControlKind::Abort, 3);
    assert_eq!(ledger.pending.len(), 2);
    assert_eq!(ledger.pending.remove("a"), Some((ControlKind::Abort, 3)));
    assert_eq!(ledger.pending.remove("a"), None);
    assert_eq!(ledger.pending.remove("b"), Some((ControlKind::Abort, 2)));
    assert_eq!(ledger.pending.len(), 0);
    assert_eq!((ControlKind::Steer.name(), ControlKind::Abort.name()), ("steer", "abort"));
}

#[test]
fn texts_are_cut_and_put_together() {
    assert_eq!(trim("\u{2003} a b\u{85}"), "a b");
    assert_eq!(split_once("a/b/c", '/'), Some(("a", "b/c")));
    assert_eq!(split_once("abc", '/'), None);
    assert_eq!(strip_prefix("data:x", "data:"), Some("x"));
    assert_eq!(strip_prefix("dat", "data:"), None);
    assert_eq!(strip_suffix("é;base64", ";base64"), Some("é"));
    assert!(contains("frame wait timed out", "timed out") && !contains("timed", "timed out"));
    assert!(contains("x", "") && contains("", ""));
    assert_eq!(decimal(0), "0");
    assert_eq!(decimal(10203), "10203");
    assert_eq!(hex(&[0, 9, 171]), "0009ab");
    assert_eq!(join(&vec!["a".to_owned(), String::new(), "b".to_owned()], ", "), "a, , b");
    assert!(is_before("a", "ab") && is_before("B", "a") && !is_before("a", "a"));
    assert!(is_before("z", "é") && is_before("\u{ffff}", "\u{10000}"));
}

#[test]
fn white_space_is_that_of_the_standard_library() {
    for u in (0..0x3100u32).chain(0xfeff..=0xfeff) {
        if let Some(c) = char::from_u32(u) {
            let s = format!("{c}x{c}");
            assert_eq!(trim(&s), s.trim(), "{u:x}");
        }
    }
}

#[test]
fn names_are_kept_in_order_and_once() {
    let mut set = NameSet::new();
    for name in ["b", "a", "c", "a", "ab"] {
        set.insert(name);
    }
    assert_eq!(set.names, ["a", "ab", "b", "c"]);
    let mut other = NameSet::new();
    for name in ["c", "ab", "b"] {
        other.insert(name);
    }
    assert!(!set.same(&other));
    other.insert("a");
    assert!(set.same(&other));
}
