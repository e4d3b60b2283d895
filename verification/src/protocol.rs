//! The frames that the runtime and the bridge exchange.

use vstd::prelude::*;

use crate::error::{protocol_error, HarnessServerError};
use crate::error;
use crate::json::{Fields, Json};
use crate::json;
use crate::text::{option_eq, text_eq};

verus! {

/// The most bytes of one line of the runtime. Its encoder limits a JSON frame to a mebibyte; the
/// rest is room for the line ending.
pub const MAX_FRAME_BYTES: usize = 1049600;

/// The first frame of the runtime.
#[derive(Debug)]
pub enum Greeting {
    Ready { protocol_version: u64 },
}

/// A model, with the provider that serves it.
#[derive(Debug)]
pub struct Model {
    pub provider: String,
    pub id: String,
}

/// Accepts the greeting of a runtime that speaks the first version of the protocol, and no other.
pub fn parse_ready(greeting: &Greeting) -> (r: Result<(), HarnessServerError>)
    ensures
        error::agrees(
            r,
            if greeting->protocol_version == 1 {
                Ok(())
            } else {
                Err(error::protocol_fault("expected OMP RPC protocol v1"@))
            },
        ),
{
    let Greeting::Ready { protocol_version } = greeting;
    if *protocol_version != 1 {
        return Err(protocol_error("expected OMP RPC protocol v1"));
    }
    Ok(())
}

/// The type of a frame.
pub open spec fn spec_frame_type(frame: json::JsonView) -> Result<Seq<char>, error::ErrorView> {
    match frame.text("type"@) {
        Some(kind) => Ok(kind),
        None => Err(error::protocol_fault("OMP frame is missing string type"@)),
    }
}

/// The type of a frame.
pub fn frame_type(frame: &Json) -> (kind: Result<&str, HarnessServerError>)
    ensures
        error::agrees(kind, spec_frame_type(frame@)),
{
    match frame.text("type") {
        Some(kind) => Ok(kind),
        None => Err(protocol_error("OMP frame is missing string type")),
    }
}

/// The types of the frames that only tell of a change of state.
pub open spec fn spec_state_notification(kind: Seq<char>) -> bool {
    ||| kind == "available_commands_update"@
    ||| kind == "config_update"@
    ||| kind == "session_info_update"@
    ||| kind == "thinking_level_changed"@
    ||| kind == "model_changed"@
    ||| kind == "config_warnings_changed"@
    ||| kind == "advisor_cost_changed"@
}

/// Whether a frame of a type only tells of a change of state.
pub fn is_state_notification(kind: &str) -> (yes: bool)
    ensures
        yes == spec_state_notification(kind@),
{
    text_eq(kind, "available_commands_update") || text_eq(kind, "config_update") || text_eq(
        kind,
        "session_info_update",
    ) || text_eq(kind, "thinking_level_changed") || text_eq(kind, "model_changed") || text_eq(
        kind,
        "config_warnings_changed",
    ) || text_eq(kind, "advisor_cost_changed")
}

/// The types of the frames by which the runtime asks the host to act.
pub open spec fn spec_privileged_callback(kind: Seq<char>) -> bool {
    ||| kind == "extension_ui_request"@
    ||| kind == "host_tool_call"@
    ||| kind == "host_tool_cancel"@
    ||| kind == "host_uri_request"@
    ||| kind == "host_uri_cancel"@
}

/// The frames that ask the host to act are of kinds of their own.
pub proof fn lemma_callback_kinds()
    ensures
        !spec_privileged_callback("response"@),
        !spec_privileged_callback("prompt_result"@),
        !spec_privileged_callback("agent_end"@),
        "host_tool_call"@ != "extension_ui_request"@,
        "host_uri_request"@ != "extension_ui_request"@,
        "host_tool_cancel"@ != "extension_ui_request"@,
        "host_uri_cancel"@ != "extension_ui_request"@,
        "agent_end"@ != "response"@,
        "agent_end"@ != "prompt_result"@,
        "response"@ != "prompt_result"@,
{
    reveal_strlit("response");
    reveal_strlit("prompt_result");
    reveal_strlit("agent_end");
    reveal_strlit("extension_ui_request");
    reveal_strlit("host_tool_call");
    reveal_strlit("host_tool_cancel");
    reveal_strlit("host_uri_request");
    reveal_strlit("host_uri_cancel");
    assert("response"@.len() == 8);
    assert("prompt_result"@.len() == 13);
    assert("agent_end"@.len() == 9);
    assert("extension_ui_request"@.len() == 20);
    assert("host_tool_call"@.len() == 14);
    assert("host_tool_cancel"@.len() == 16);
    assert("host_uri_request"@.len() == 16);
    assert("host_uri_cancel"@.len() == 15);
}

/// Whether a frame of a type asks the host to act.
pub fn is_privileged_callback(kind: &str) -> (yes: bool)
    ensures
        yes == spec_privileged_callback(kind@),
{
    text_eq(kind, "extension_ui_request") || text_eq(kind, "host_tool_call") || text_eq(
        kind,
        "host_tool_cancel",
    ) || text_eq(kind, "host_uri_request") || text_eq(kind, "host_uri_cancel")
}

/// The methods of user interface requests that update what is shown and want no reply.
pub open spec fn presentation_method(method: Option<Seq<char>>) -> bool {
    match method {
        Some(m) => {
            ||| m == "cancel"@
            ||| m == "notify"@
            ||| m == "setStatus"@
            ||| m == "setWidget"@
            ||| m == "setTitle"@
            ||| m == "set_editor_text"@
            ||| m == "open_url"@
        },
        None => false,
    }
}

/// The methods of user interface requests that ask the user something.
pub open spec fn dialog_method(method: Option<Seq<char>>) -> bool {
    match method {
        Some(m) => m == "select"@ || m == "confirm"@ || m == "input"@ || m == "editor"@,
        None => false,
    }
}

/// The answer to a dialog: that it was cancelled.
pub open spec fn dialog_denial(id: Seq<char>) -> json::JsonView {
    json::JsonView::Object(
        seq![
            ("type"@, json::JsonView::Text("extension_ui_response"@)),
            ("id"@, json::JsonView::Text(id)),
            ("cancelled"@, json::JsonView::Bool(true)),
        ],
    )
}

/// The answer to a call of a host tool: an error.
pub open spec fn host_tool_denial(id: Seq<char>) -> json::JsonView {
    let note = json::JsonView::Object(
        seq![
            ("type"@, json::JsonView::Text("text"@)),
            ("text"@, json::JsonView::Text("Host tools are disabled by centaur-safe"@)),
        ],
    );
    json::JsonView::Object(
        seq![
            ("type"@, json::JsonView::Text("host_tool_result"@)),
            ("id"@, json::JsonView::Text(id)),
            (
                "result"@,
                json::JsonView::Object(seq![("content"@, json::JsonView::List(seq![note]))]),
            ),
            ("isError"@, json::JsonView::Bool(true)),
        ],
    )
}

/// The answer to a request for a host URI: an error.
pub open spec fn host_uri_denial(id: Seq<char>) -> json::JsonView {
    json::JsonView::Object(
        seq![
            ("type"@, json::JsonView::Text("host_uri_result"@)),
            ("id"@, json::JsonView::Text(id)),
            ("isError"@, json::JsonView::Bool(true)),
            ("error"@, json::JsonView::Text("Host URIs are disabled by centaur-safe"@)),
        ],
    )
}

/// How a frame that asks the host to act is refused: with an answer, without one, or as a breach
/// of the protocol.
pub open spec fn spec_deny_callback(frame: json::JsonView) -> Result<
    Option<json::JsonView>,
    error::ErrorView,
> {
    match spec_frame_type(frame) {
        Err(fault) => Err(fault),
        Ok(kind) => if kind == "extension_ui_request"@ && presentation_method(
            frame.text("method"@),
        ) {
            Ok(None)
        } else {
            match frame.text("id"@) {
                None => Err(error::protocol_fault("OMP privileged callback omitted string id"@)),
                Some(id) => if kind == "extension_ui_request"@ {
                    if dialog_method(frame.text("method"@)) {
                        Ok(Some(dialog_denial(id)))
                    } else {
                        Err(error::protocol_fault("unknown OMP extension UI request"@))
                    }
                } else if kind == "host_tool_call"@ {
                    Ok(Some(host_tool_denial(id)))
                } else if kind == "host_uri_request"@ {
                    Ok(Some(host_uri_denial(id)))
                } else if kind == "host_tool_cancel"@ || kind == "host_uri_cancel"@ {
                    Ok(None)
                } else {
                    Err(error::protocol_fault("unknown privileged OMP callback"@))
                },
            }
        },
    }
}

/// Whether an optional document is what a specification asks for.
pub open spec fn same_reply(
    got: Result<Option<Json>, HarnessServerError>,
    want: Result<Option<json::JsonView>, error::ErrorView>,
) -> bool {
    match (got, want) {
        (Ok(Some(reply)), Ok(Some(content))) => reply@ == content,
        (Ok(None), Ok(None)) => true,
        (Err(e), Err(fault)) => e@ == fault,
        _ => false,
    }
}

/// How a frame that asks the host to act is refused: with the answer to write, without one, or as
/// a breach of the protocol.
pub fn deny_callback(frame: &Json) -> (r: Result<Option<Json>, HarnessServerError>)
    ensures
        same_reply(r, spec_deny_callback(frame@)),
{
    let kind = match frame_type(frame) {
        Ok(kind) => kind,
        Err(e) => return Err(e),
    };
    let method = frame.text("method");
    let is_ui = text_eq(kind, "extension_ui_request");
    if is_ui && (option_eq(method, "cancel") || option_eq(method, "notify") || option_eq(
        method,
        "setStatus",
    ) || option_eq(method, "setWidget") || option_eq(method, "setTitle") || option_eq(
        method,
        "set_editor_text",
    ) || option_eq(method, "open_url")) {
        return Ok(None);
    }
    let id = match frame.text("id") {
        Some(id) => id,
        None => return Err(protocol_error("OMP privileged callback omitted string id")),
    };
    if is_ui {
        if !(option_eq(method, "select") || option_eq(method, "confirm") || option_eq(
            method,
            "input",
        ) || option_eq(method, "editor")) {
            return Err(protocol_error("unknown OMP extension UI request"));
        }
        let fields = Fields::new().add_text("type", "extension_ui_response").add_text(
            "id",
            id,
        ).add("cancelled", Json::Bool(true));
        assert(fields@ =~= dialog_denial(id@)->Object_0);
        return Ok(Some(fields.object()));
    }
    if text_eq(kind, "host_tool_call") {
        let note = Fields::new().add_text("type", "text").add_text(
            "text",
            "Host tools are disabled by centaur-safe",
        );
        assert(note@ =~= seq![
            ("type"@, json::JsonView::Text("text"@)),
            ("text"@, json::JsonView::Text("Host tools are disabled by centaur-safe"@)),
        ]);
        let note = note.object();
        let ghost note_view = note@;
        let mut notes: Vec<Json> = Vec::new();
        notes.push(note);
        proof {
            json::lemma_items_content(notes@);
            assert(json::items_content(notes@) =~= seq![note_view]);
        }
        let result = Fields::new().add("content", Json::List(notes));
        let fields = Fields::new().add_text("type", "host_tool_result").add_text("id", id).add(
            "result",
            result.object(),
        ).add("isError", Json::Bool(true));
        assert(result@ =~= seq![("content"@, json::JsonView::List(seq![note_view]))]);
        assert(fields@ =~= host_tool_denial(id@)->Object_0);
        return Ok(Some(fields.object()));
    }
    if text_eq(kind, "host_uri_request") {
        let fields = Fields::new().add_text("type", "host_uri_result").add_text("id", id).add(
            "isError",
            Json::Bool(true),
        ).add_text("error", "Host URIs are disabled by centaur-safe");
        assert(fields@ =~= host_uri_denial(id@)->Object_0);
        return Ok(Some(fields.object()));
    }
    if text_eq(kind, "host_tool_cancel") || text_eq(kind, "host_uri_cancel") {
        return Ok(None);
    }
    Err(protocol_error("unknown privileged OMP callback"))
}

} // verus!
