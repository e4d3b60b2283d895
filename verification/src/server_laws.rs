//! What the bridge does with the commands that it is given, said of each function's arguments and
//! result.

use vstd::prelude::*;

use crate::error;
use crate::error::HarnessServerError;
use crate::loading;
use crate::outside;
use crate::prompt;
use crate::protocol;
use crate::protocol::Greeting;
use crate::server;
use crate::server::{
    BlocksCommand, Conclusion, Dispatch, OmpThread, SessionPlan, TurnRequest, UserMessage,
};
use crate::text;
use crate::text_laws;
use crate::turn::{ControlView, TurnOutcome};

verus! {

/// A text is not blank just if it holds a character that is no white space.
pub proof fn law_nonblank(s: Seq<char>)
    ensures
        server::spec_nonblank(s) <==> exists|i: int|
            0 <= i < s.len() && !text::spec_whitespace(#[trigger] s[i]),
{
    text_laws::law_trimmed(s);
    let (a, b) = choose|a: int, b: int|
        0 <= a <= b <= s.len() && text_laws::blank(#[trigger] s.take(a)) && text_laws::blank(
            #[trigger] s.skip(b),
        ) && text::spec_trim(s) == s.subrange(a, b);
    if server::spec_nonblank(s) {
        assert(!text::spec_whitespace(s[a]));
    } else {
        assert forall|i: int| 0 <= i < s.len() implies text::spec_whitespace(#[trigger] s[i]) by {
            if i < a {
                assert(s.take(a)[i] == s[i]);
            } else {
                assert(s.skip(b)[i - b] == s[i]);
            }
        }
    }
}

/// Between turns a message of the user runs a turn with that message, a fault of the input is
/// reported as it is, and nothing else does anything.
pub proof fn law_commands_between_turns(command: Result<BlocksCommand, String>, d: Dispatch)
    requires
        call_ensures(server::dispatch, (command,), d),
    ensures
        forall|message: UserMessage|
            command == Ok::<BlocksCommand, String>(BlocksCommand::User(message)) <==> d
                == Dispatch::Turn(message),
        forall|fault: String|
            command == Err::<BlocksCommand, String>(fault) <==> d == Dispatch::Report(fault),
        command == Ok::<BlocksCommand, String>(BlocksCommand::Interrupt) || command == Ok::<
            BlocksCommand,
            String,
        >(BlocksCommand::AttachmentChunk) <==> d == Dispatch::Ignore,
{
}

/// While a turn runs a message of the user steers it with all its inputs and under its identifier, an
/// interrupt interrupts it, a chunk of an attachment is passed over, a fault of the input ends it, and
/// silence asks for nothing.
pub proof fn law_commands_during_a_turn(
    command: Option<Result<BlocksCommand, String>>,
    r: Result<TurnRequest, HarnessServerError>,
)
    requires
        call_ensures(server::turn_request, (command,), r),
    ensures
        command matches Some(Ok(BlocksCommand::User(message))) ==> (r matches Ok(
            TurnRequest::Control { control, client_user_message_id },
        ) && control@ == ControlView::Steer(message.input@.map_values(|item: prompt::UserInput| item@))
            && client_user_message_id == message.client_user_message_id),
        command matches Some(Ok(BlocksCommand::Interrupt)) ==> (r matches Ok(
            TurnRequest::Control { control, client_user_message_id },
        ) && control@ == ControlView::Interrupt && client_user_message_id is None),
        command matches Some(Ok(BlocksCommand::AttachmentChunk)) ==> r matches Ok(
            TurnRequest::Again,
        ),
        command matches Some(Err(fault)) ==> (r matches Err(e) && e@ == error::ErrorView::Protocol(
            fault@,
        )),
        command is None ==> r matches Ok(TurnRequest::Quiet),
{
}

/// A turn that failed is reported with the text of its error, one that was interrupted as cancelled,
/// and any other as completed.
pub proof fn law_reported_conclusions<U>(
    result: Result<TurnOutcome<U>, HarnessServerError>,
    c: Conclusion,
)
    requires
        call_ensures(server::conclusion::<U>, (&result,), c),
    ensures
        result matches Ok(outcome) ==> (outcome.interrupted ==> c is Cancelled),
        result matches Ok(outcome) ==> (!outcome.interrupted ==> c is Completed),
        result matches Err(HarnessServerError::Protocol(text)) ==> (c matches Conclusion::Failed {
            message,
        } && message@ == text@),
        result is Err ==> c is Failed,
{
}

/// A turn is named by what is unique to it behind a word that says what it is.
pub proof fn law_turn_names(id: String)
    requires
        call_ensures(server::fresh_turn_id, (), id),
    ensures
        id@.len() == 37,
        id@.take(5) == "turn-"@,
        forall|i: int|
            5 <= i < 37 ==> {
                ||| '0' <= #[trigger] id@[i] <= '9'
                ||| 'a' <= id@[i] <= 'f'
            },
{
    reveal_strlit("turn-");
    assert("turn-"@.len() == 5);
    let unique = id@.skip(5);
    assert(outside::simple_uuid(unique));
    assert forall|i: int| 5 <= i < 37 implies {
        ||| '0' <= #[trigger] id@[i] <= '9'
        ||| 'a' <= id@[i] <= 'f'
    } by {
        assert(outside::is_hex_digit(unique[i - 5]));
    }
}

/// A message asks for the provider and the model that it names; where it leaves one out, that one is
/// empty.
pub proof fn law_models_that_messages_ask_for(message: UserMessage, r: (&str, &str))
    requires
        call_ensures(server::requested_model, (&message,), r),
    ensures
        message.provider matches Some(provider) ==> r.0@ == provider@,
        message.provider is None ==> r.0@.len() == 0,
        message.model matches Some(model) ==> r.1@ == model@,
        message.model is None ==> r.1@.len() == 0,
{
}

/// A line of the input is a command, without the white space around it, if it holds anything else.
pub proof fn law_input_lines(line: &str, r: Option<&str>)
    requires
        call_ensures(server::input_line, (line,), r),
    ensures
        r is Some <==> exists|i: int|
            0 <= i < line@.len() && !text::spec_whitespace(#[trigger] line@[i]),
        r matches Some(command) ==> command@ == text::spec_trim(line@),
{
    law_nonblank(line@);
}

/// Whether a name is made up: groups of eight, four, four, four and twelve hexadecimal digits.
pub open spec fn made_up(name: Seq<char>) -> bool {
    &&& name.len() == 36
    &&& name[8] == '-' && name[13] == '-' && name[18] == '-' && name[23] == '-'
    &&& forall|i: int|
        0 <= i < 36 && i != 8 && i != 13 && i != 18 && i != 23 ==> {
            ||| '0' <= #[trigger] name[i] <= '9'
            ||| 'a' <= name[i] <= 'f'
        }
}

/// A thread has the key that it is given, if that is not blank, and else one that is made up.
pub proof fn law_thread_names(key: Option<&str>, id: String)
    requires
        call_ensures(server::choose_thread_id, (key,), id),
    ensures
        key matches Some(given) ==> ((exists|i: int|
            0 <= i < given@.len() && !text::spec_whitespace(#[trigger] given@[i])) ==> id@
            == given@),
        key is None ==> made_up(id@),
        key matches Some(given) ==> ((forall|i: int|
            0 <= i < given@.len() ==> text::spec_whitespace(#[trigger] given@[i])) ==> made_up(
            id@,
        )),
{
    if let Some(given) = key {
        law_nonblank(given@);
    }
}

/// The runtime is greeted back just if it speaks the first version of the protocol.
pub proof fn law_greetings(greeting: Greeting, r: Result<(), HarnessServerError>)
    requires
        call_ensures(protocol::parse_ready, (&greeting,), r),
    ensures
        r is Ok <==> greeting == (Greeting::Ready { protocol_version: 1 }),
        r matches Err(e) ==> e@ == error::ErrorView::Protocol(
            "OMP protocol error: "@ + "expected OMP RPC protocol v1"@,
        ),
{
}

/// A turn that failed takes its session with it, and no other does; nothing else of the thread
/// changes.
pub proof fn law_closed_turns<S>(thread: &mut OmpThread<S>, conclusion: &Conclusion)
    requires
        call_ensures(OmpThread::<S>::close_turn, (thread, conclusion), ()),
    ensures
        *conclusion is Failed ==> final(thread).session is None,
        !(*conclusion is Failed) ==> final(thread).session == old(thread).session,
        final(thread).id == old(thread).id,
        final(thread).cwd == old(thread).cwd,
        final(thread).session_dir == old(thread).session_dir,
        final(thread).started == old(thread).started,
{
}

/// A turn goes on in the session that runs and starts one where none does; a session that ended is
/// given up.
pub proof fn law_planned_sessions<S>(thread: &mut OmpThread<S>, exited: bool, plan: SessionPlan)
    requires
        call_ensures(OmpThread::<S>::plan_session, (thread, exited), plan),
    ensures
        plan is EnsureModel <==> old(thread).session is Some && !exited,
        exited ==> final(thread).session is None,
        !exited ==> final(thread).session == old(thread).session,
        final(thread).id == old(thread).id,
        final(thread).cwd == old(thread).cwd,
        final(thread).session_dir == old(thread).session_dir,
        final(thread).started == old(thread).started,
{
}

/// A thread is announced if it was not before, and counts as announced from then on; nothing else of
/// it changes.
pub proof fn law_announced_threads<S>(thread: &mut OmpThread<S>, first: bool)
    requires
        call_ensures(OmpThread::<S>::announce, (thread,), first),
    ensures
        first <==> !old(thread).started,
        final(thread).started,
        final(thread).id == old(thread).id,
        final(thread).cwd == old(thread).cwd,
        final(thread).session_dir == old(thread).session_dir,
        final(thread).session == old(thread).session,
{
}

/// A binary that could not be located is an error that tells why; one that was is the one that was
/// found.
pub proof fn law_located_binaries(
    canonical: Result<String, String>,
    r: Result<String, HarnessServerError>,
)
    requires
        call_ensures(loading::locate_binary, (canonical,), r),
    ensures
        canonical matches Ok(found) ==> (r matches Ok(path) && path@ == found@),
        canonical matches Err(fault) ==> (r matches Err(e) && e@ == error::ErrorView::Protocol(
            "OMP profile centaur-safe binary is unavailable: "@ + fault@,
        )),
{
}

/// A root that is a link is refused, and no other.
pub proof fn law_linked_roots(is_symlink: Option<bool>, r: Result<(), HarnessServerError>)
    requires
        call_ensures(loading::check_root_link, (is_symlink,), r),
    ensures
        r is Err <==> is_symlink == Some(true),
{
}

} // verus!
