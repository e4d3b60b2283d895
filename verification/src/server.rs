//! The blocks server: one stream of commands, one thread, and the session of the runtime that the
//! thread's turns run in.

use vstd::prelude::*;
use vstd::utf8::*;

use crate::error;
use crate::error::HarnessServerError;
use crate::outside;
use crate::outside::{fresh_simple_uuid, fresh_uuid, sha256};
use crate::path;
use crate::path::join_path;
use crate::prompt;
use crate::prompt::UserInput;
use crate::protocol::Model;
use crate::text;
use crate::text::{concat, hex, text_eq, trim};
use crate::turn::{ControlView, TurnControl, TurnOutcome};

verus! {

/// Whether a text holds more than white space.
pub open spec fn spec_nonblank(s: Seq<char>) -> bool {
    text::spec_trim(s).len() > 0
}

fn is_nonblank(s: &str) -> (yes: bool)
    ensures
        yes == spec_nonblank(s@),
{
    let trimmed = trim(s);
    proof {
        reveal_strlit("");
        assert(""@ =~= Seq::<char>::empty());
        assert(trimmed@.len() == 0 <==> trimmed@ =~= ""@);
    }
    !text_eq(trimmed, "")
}

// ---------------------------------------------------------------------------
// The thread
// ---------------------------------------------------------------------------

/// The key of the thread, where one is set that is not blank.
pub fn thread_key(key: Option<&str>) -> (r: Option<String>)
    ensures
        match r {
            Some(id) => text::optional(key) == Some(id@) && spec_nonblank(id@),
            None => text::optional(key) matches Some(key) ==> !spec_nonblank(key),
        },
{
    match key {
        Some(key) => {
            if is_nonblank(key) {
                Some(key.to_owned())
            } else {
                None
            }
        },
        None => None,
    }
}

/// The identifier of the thread: its key, or a fresh one where none is set.
pub fn choose_thread_id(key: Option<&str>) -> (id: String)
    ensures
        if text::optional(key) matches Some(key) && spec_nonblank(key) {
            Some(id@) == text::optional(key)
        } else {
            outside::hyphenated_uuid(id@)
        },
{
    match thread_key(key) {
        Some(id) => id,
        None => fresh_uuid(),
    }
}

/// The directory of the sessions: the one that is set, or one below the home directory.
pub open spec fn spec_session_root(root: Option<Seq<char>>, home: Option<Seq<char>>) -> Seq<char> {
    match root {
        Some(root) => root,
        None => path::spec_join_path(
            match home {
                Some(home) => home,
                None => "."@,
            },
            ".omp/centaur-sessions"@,
        ),
    }
}

/// The directory of the sessions.
pub fn session_root(root: Option<&str>, home: Option<&str>) -> (dir: String)
    ensures
        dir@ == spec_session_root(text::optional(root), text::optional(home)),
{
    match root {
        Some(root) => root.to_owned(),
        None => {
            let base = match home {
                Some(home) => home,
                None => ".",
            };
            join_path(base, ".omp/centaur-sessions")
        },
    }
}

/// The directory below a session root that belongs to a digest.
pub fn session_dir_for(root: &str, digest: &[u8]) -> (dir: String)
    ensures
        dir@ == path::spec_join_path(root@, text::spec_hex(digest@)),
{
    let name = hex(digest);
    join_path(root, name.as_str())
}

/// The directory of the session of a thread.
pub open spec fn spec_session_dir(root: Seq<char>, thread_id: Seq<char>) -> Seq<char> {
    path::spec_join_path(
        root,
        text::spec_hex(outside::sha256_digest(encode_utf8(thread_id))),
    )
}

/// The directory of the session of a thread.
pub fn session_dir(root: &str, thread_id: &str) -> (dir: String)
    ensures
        dir@ == spec_session_dir(root@, thread_id@),
{
    let digest = sha256(thread_id.as_bytes());
    session_dir_for(root, digest.as_slice())
}

/// Whatever its identifier, the directory of a thread lies directly in the session root.
pub proof fn law_session_dir_is_contained(root: Seq<char>, digest: Seq<u8>)
    requires
        digest.len() == 32,
    ensures
        path::spec_components(path::spec_join_path(root, text::spec_hex(digest)))
            == path::spec_components(root).push(path::PathPart::Normal(text::spec_hex(digest))),
{
    let name = text::spec_hex(digest);
    assert(name.len() == 64);
    text::lemma_hex_chars(digest);
    assert(!name.contains('/'));
    path::lemma_join_components(root, name);
}

/// A thread: its place, the session that its turns run in, and whether it was announced.
#[derive(Debug)]
pub struct OmpThread<S> {
    pub id: String,
    pub cwd: String,
    pub session_dir: String,
    pub session: Option<S>,
    pub started: bool,
}

// ---------------------------------------------------------------------------
// Commands
// ---------------------------------------------------------------------------

/// A line of input without the white space around it; none where nothing is left.
pub fn input_line(line: &str) -> (r: Option<&str>)
    ensures
        match r {
            Some(command) => spec_nonblank(line@) && command@ == text::spec_trim(line@),
            None => !spec_nonblank(line@),
        },
{
    if is_nonblank(line) {
        Some(trim(line))
    } else {
        None
    }
}

/// What the user sends.
#[derive(Debug)]
pub struct UserMessage {
    pub input: Vec<UserInput>,
    pub client_user_message_id: Option<String>,
    pub model: Option<String>,
    pub provider: Option<String>,
}

/// A command of the stream.
#[derive(Debug)]
pub enum BlocksCommand {
    User(UserMessage),
    Interrupt,
    AttachmentChunk,
}

/// What a command asks for between turns.
#[derive(Debug)]
pub enum Dispatch {
    /// Run a turn.
    Turn(UserMessage),
    /// Nothing.
    Ignore,
    /// Report a fault of the input.
    Report(String),
}

/// Says what a command asks for between turns: an interrupt has nothing to interrupt there.
pub fn dispatch(command: Result<BlocksCommand, String>) -> (d: Dispatch)
    ensures
        d == match command {
            Ok(BlocksCommand::User(message)) => Dispatch::Turn(message),
            Ok(BlocksCommand::Interrupt) => Dispatch::Ignore,
            Ok(BlocksCommand::AttachmentChunk) => Dispatch::Ignore,
            Err(fault) => Dispatch::Report(fault),
        },
{
    match command {
        Ok(BlocksCommand::User(message)) => Dispatch::Turn(message),
        Ok(BlocksCommand::Interrupt) => Dispatch::Ignore,
        Ok(BlocksCommand::AttachmentChunk) => Dispatch::Ignore,
        Err(fault) => Dispatch::Report(fault),
    }
}

/// The provider and the model that a message asks for; empty where it asks for none.
pub fn requested_model(message: &UserMessage) -> (r: (&str, &str))
    ensures
        r.0@ == match message.provider {
            Some(provider) => provider@,
            None => Seq::<char>::empty(),
        },
        r.1@ == match message.model {
            Some(model) => model@,
            None => Seq::<char>::empty(),
        },
{
    proof {
        reveal_strlit("");
        assert(""@ =~= Seq::<char>::empty());
    }
    let provider = match &message.provider {
        Some(provider) => provider.as_str(),
        None => "",
    };
    let model = match &message.model {
        Some(model) => model.as_str(),
        None => "",
    };
    (provider, model)
}

/// What a command asks for while a turn runs.
#[derive(Debug)]
pub enum TurnRequest {
    /// A control of the turn. A steer is shown as a message of the user, under its identifier.
    Control { control: TurnControl, client_user_message_id: Option<String> },
    /// Look for the next command.
    Again,
    /// No command is waiting.
    Quiet,
}

/// Whether a request is what a command asks for while a turn runs.
pub open spec fn requests(command: Option<Result<BlocksCommand, String>>, r: Result<
    TurnRequest,
    HarnessServerError,
>) -> bool {
    match command {
        None => r matches Ok(TurnRequest::Quiet),
        Some(Err(fault)) => r matches Err(e) && e@ == error::ErrorView::Protocol(fault@),
        Some(Ok(BlocksCommand::AttachmentChunk)) => r matches Ok(TurnRequest::Again),
        Some(Ok(BlocksCommand::Interrupt)) => r matches Ok(TurnRequest::Control {
            control,
            client_user_message_id,
        }) && control@ == ControlView::Interrupt && client_user_message_id is None,
        Some(Ok(BlocksCommand::User(message))) => r matches Ok(TurnRequest::Control {
            control,
            client_user_message_id,
        }) && control@ == ControlView::Steer(prompt::inputs(message.input@))
            && client_user_message_id == message.client_user_message_id,
    }
}

/// Says what a command asks for while a turn runs: a message steers the turn, and a fault of the
/// input ends it.
pub fn turn_request(command: Option<Result<BlocksCommand, String>>) -> (r: Result<
    TurnRequest,
    HarnessServerError,
>)
    ensures
        requests(command, r),
{
    match command {
        None => Ok(TurnRequest::Quiet),
        Some(Err(fault)) => Err(HarnessServerError::Protocol(fault)),
        Some(Ok(BlocksCommand::AttachmentChunk)) => Ok(TurnRequest::Again),
        Some(Ok(BlocksCommand::Interrupt)) => Ok(
            TurnRequest::Control {
                control: TurnControl::Interrupt,
                client_user_message_id: None,
            },
        ),
        Some(Ok(BlocksCommand::User(message))) => Ok(
            TurnRequest::Control {
                control: TurnControl::Steer(message.input),
                client_user_message_id: message.client_user_message_id,
            },
        ),
    }
}

// ---------------------------------------------------------------------------
// Turns
// ---------------------------------------------------------------------------

/// How the session for a turn is come by.
#[derive(Debug, Clone, Copy, PartialEq, Eq, Structural)]
pub enum SessionPlan {
    /// Start a new one.
    Start,
    /// Go on in the one that runs, with the model that is asked for.
    EnsureModel,
}

/// Whether a thread is announced when its turn comes to it, and whether it counts as announced
/// afterwards.
pub open spec fn spec_announce(started: bool) -> (bool, bool) {
    (!started, true)
}

impl<S> OmpThread<S> {
    /// Announces the thread: says whether this is the first time, and notes that it was done.
    pub fn announce(&mut self) -> (first: bool)
        ensures
            first == !old(self).started,
            final(self).started,
            (first, final(self).started) == spec_announce(old(self).started),
            final(self).id == old(self).id,
            final(self).cwd == old(self).cwd,
            final(self).session_dir == old(self).session_dir,
            final(self).session == old(self).session,
    {
        let first = !self.started;
        self.started = true;
        first
    }

    /// Says how the session for the next turn is come by, given whether the one that there is has
    /// exited. One that has is dropped.
    pub fn plan_session(&mut self, exited: bool) -> (plan: SessionPlan)
        ensures
            final(self).session == if exited {
                None
            } else {
                old(self).session
            },
            plan == if old(self).session is Some && !exited {
                SessionPlan::EnsureModel
            } else {
                SessionPlan::Start
            },
            final(self).id == old(self).id,
            final(self).cwd == old(self).cwd,
            final(self).session_dir == old(self).session_dir,
            final(self).started == old(self).started,
    {
        if exited {
            self.session = None;
        }
        if self.session.is_some() {
            SessionPlan::EnsureModel
        } else {
            SessionPlan::Start
        }
    }

    /// Notes how a turn ended: after a failure the session is dropped.
    pub fn close_turn(&mut self, conclusion: &Conclusion)
        ensures
            final(self).session == if conclusion is Failed {
                None
            } else {
                old(self).session
            },
            final(self).id == old(self).id,
            final(self).cwd == old(self).cwd,
            final(self).session_dir == old(self).session_dir,
            final(self).started == old(self).started,
    {
        match conclusion {
            Conclusion::Failed { message: _ } => {
                self.session = None;
            },
            _ => {},
        }
    }
}

/// Whether a thread counts as announced after some turns, of which each came to its announcement or
/// failed before it. Nothing else in a turn changes that.
pub open spec fn announced_after(started: bool, turns: Seq<bool>) -> bool
    decreases turns.len(),
{
    if turns.len() == 0 {
        started
    } else {
        let before = announced_after(started, turns.drop_last());
        if turns.last() {
            spec_announce(before).1
        } else {
            before
        }
    }
}

/// Whether a thread is announced in the turn with a number.
pub open spec fn announced_in(started: bool, turns: Seq<bool>, i: int) -> bool {
    turns[i] && spec_announce(announced_after(started, turns.take(i))).0
}

/// Once a thread counts as announced it does so for good.
pub proof fn law_announcement_is_never_taken_back(started: bool, turns: Seq<bool>, i: int)
    requires
        0 <= i <= turns.len(),
        announced_after(started, turns.take(i)),
    ensures
        announced_after(started, turns),
    decreases turns.len(),
{
    if i < turns.len() {
        assert(turns.drop_last().take(i) =~= turns.take(i));
        law_announcement_is_never_taken_back(started, turns.drop_last(), i);
    } else {
        assert(turns.take(i) =~= turns);
    }
}

/// After each turn a thread counts as announced just if it did before or the turn announced it.
pub proof fn law_announcement_is_noted(started: bool, turns: Seq<bool>, i: int)
    requires
        0 <= i < turns.len(),
    ensures
        announced_after(started, turns.take(i + 1)) == (announced_after(started, turns.take(i))
            || announced_in(started, turns, i)),
{
    assert(turns.take(i + 1).drop_last() =~= turns.take(i));
}

/// A thread is announced at most once, however many turns it has and whether or not they fail, and
/// only in a turn before which it did not count as announced.
pub proof fn law_thread_is_announced_at_most_once(started: bool, turns: Seq<bool>, i: int, j: int)
    requires
        0 <= i < turns.len(),
        0 <= j < turns.len(),
        announced_in(started, turns, i),
        announced_in(started, turns, j),
    ensures
        i == j,
        !announced_after(started, turns.take(i)),
        !started,
{
    let (first, second) = if i < j {
        (i, j)
    } else {
        (j, i)
    };
    law_announcement_is_noted(started, turns, first);
    if first < second {
        assert(turns.take(second).take(first + 1) =~= turns.take(first + 1));
        law_announcement_is_never_taken_back(started, turns.take(second), first + 1);
    }
    if started {
        assert(turns.take(i).take(0) =~= Seq::<bool>::empty());
        law_announcement_is_never_taken_back(started, turns.take(i), 0);
    }
}

/// The identifier of a turn.
pub fn turn_id_for(unique: &str) -> (id: String)
    ensures
        id@ == "turn-"@ + unique@,
{
    concat("turn-", unique)
}

/// A fresh identifier of a turn.
pub fn fresh_turn_id() -> (id: String)
    ensures
        text::spec_strip_prefix(id@, "turn-"@) matches Some(unique) && outside::simple_uuid(unique),
{
    let unique = fresh_simple_uuid();
    let id = turn_id_for(unique.as_str());
    proof {
        let n = "turn-"@.len() as int;
        assert(id@.take(n) =~= "turn-"@);
        assert(id@.skip(n) =~= unique@);
    }
    id
}

/// The provider and the name of a model; empty where there is none.
pub fn model_labels(model: Option<&Model>) -> (r: (String, String))
    ensures
        (r.0@, r.1@) == match model {
            Some(model) => (model.provider@, model.id@),
            None => (Seq::<char>::empty(), Seq::<char>::empty()),
        },
{
    match model {
        Some(model) => (model.provider.clone(), model.id.clone()),
        None => {
            let provider = String::new();
            let id = String::new();
            proof {
                assert(provider@ =~= Seq::<char>::empty());
                assert(id@ =~= Seq::<char>::empty());
            }
            (provider, id)
        },
    }
}

/// How a turn is reported to have ended.
#[derive(Debug)]
pub enum Conclusion {
    Cancelled,
    Completed,
    Failed { message: String },
}

/// Says how a turn is reported to have ended.
pub fn conclusion<U>(result: &Result<TurnOutcome<U>, HarnessServerError>) -> (c: Conclusion)
    ensures
        match (result, c) {
            (Ok(outcome), Conclusion::Cancelled) => outcome.interrupted,
            (Ok(outcome), Conclusion::Completed) => !outcome.interrupted,
            (Err(e), Conclusion::Failed { message }) => message@
                == HarnessServerError::spec_message(e@),
            _ => false,
        },
{
    match result {
        Ok(outcome) => {
            if outcome.interrupted {
                Conclusion::Cancelled
            } else {
                Conclusion::Completed
            }
        },
        Err(e) => Conclusion::Failed { message: e.message() },
    }
}

} // verus!
