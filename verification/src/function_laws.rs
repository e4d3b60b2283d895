//! Promises on single calls: what a function hands back for what it is given.

use vstd::prelude::*;

use crate::error;
use crate::error::HarnessServerError;
use crate::json;
use crate::json::{Fields, Json, JsonView};
use crate::ledger;
use crate::ledger::CommandLedger;
use crate::loading;
use crate::loading::{CheckedBinary, ExecutableFacts, VerifiedBinary, VersionRun};
use crate::profile;
use crate::profile::{AllowedModels, OmpProfile};
use crate::profile_laws;
use crate::prompt;
use crate::prompt::{InputView, Prompt, UserInput};
use crate::prompt_laws;
use crate::protocol::Model;
use crate::record_laws;
use crate::run::{AwaitEnd, AwaitFrame, RunStep, RunView};
use crate::server;
use crate::server_laws;
use crate::session;
use crate::session::{AwaitedCommand, CommandWait, OmpSession};
use crate::setup::{AwaitResponse, CommandStage, SetupFailure, SetupStep, SetupStepView};
use crate::setup_laws;
use crate::text;
use crate::turn;
use crate::turn::{
    ControlView, Opening, SentView, Step, StepView, Turn, TurnControl, TurnOutcome, TurnView,
};
use crate::turn_laws;

verus! {

// ---------------------------------------------------------------------------
// Turns
// ---------------------------------------------------------------------------

/// A frame of a kind that the turn has no use for itself is to be normalized, interrupted or not, and
/// leaves the turn and the ledger as they were.
pub proof fn law_on_frame_hands_other_frames_on<U>(
    turn: &mut Turn<U>,
    ledger: &mut CommandLedger,
    frame: &Json,
    output_limit: usize,
    r: Result<Step, HarnessServerError>,
    kind: Seq<char>,
)
    requires
        call_ensures(Turn::<U>::on_frame, (turn, ledger, frame, output_limit), r),
        frame@.get("type"@) == Some(JsonView::Text(kind)),
        kind != "response"@,
        kind != "prompt_result"@,
        kind != "extension_ui_request"@,
        kind != "host_tool_call"@,
        kind != "host_tool_cancel"@,
        kind != "host_uri_request"@,
        kind != "host_uri_cancel"@,
        kind != "agent_end"@,
        kind != "agent_start"@,
        kind == "command_output"@ ==> old(turn)@.agent_started,
    ensures
        r matches Ok(step) && step@ == (StepView::Normalize { early: None }),
        final(turn)@ == old(turn)@,
        final(ledger)@ == old(ledger)@,
{
    turn_laws::law_other_frames_are_normalized(
        old(turn)@,
        old(ledger)@,
        frame@,
        output_limit,
        0,
        kind,
    );
}

/// The same of the whole run: such a frame, whole, is what is to be normalized next.
pub proof fn law_received_hands_other_frames_on<U>(
    waiting: AwaitFrame<U>,
    ledger: &mut CommandLedger,
    frame: Json,
    output_limit: usize,
    now: u64,
    r: Result<RunStep<U>, HarnessServerError>,
    kind: Seq<char>,
)
    requires
        call_ensures(
            AwaitFrame::<U>::received,
            (waiting, ledger, Ok(Some(frame)), output_limit, now),
            r,
        ),
        frame@.get("type"@) == Some(JsonView::Text(kind)),
        kind != "response"@,
        kind != "prompt_result"@,
        kind != "extension_ui_request"@,
        kind != "host_tool_call"@,
        kind != "host_tool_cancel"@,
        kind != "host_uri_request"@,
        kind != "host_uri_cancel"@,
        kind != "agent_end"@,
        kind != "agent_start"@,
        kind == "command_output"@ ==> waiting.turn@.agent_started,
    ensures
        r matches Ok(step) && step@ == (RunView::Normalize {
            turn: waiting.turn@,
            source: frame@,
        }),
        final(ledger)@ == old(ledger)@,
{
    turn_laws::law_other_frames_are_normalized(
        waiting.turn@,
        old(ledger)@,
        frame@,
        output_limit,
        now,
        kind,
    );
}

/// A steer that there is room for is written with the message and exactly the images of its input.
pub proof fn law_on_control_writes_the_whole_steer<U>(
    turn: &mut Turn<U>,
    ledger: &mut CommandLedger,
    control: &TurnControl,
    r: Result<Step, HarnessServerError>,
    input: Seq<InputView>,
    message: Seq<char>,
    images: Seq<prompt::ImageView>,
)
    requires
        call_ensures(Turn::<U>::on_control, (turn, ledger, control), r),
        control@ == ControlView::Steer(input),
        !old(turn)@.interrupted,
        old(ledger)@.pending.len() < 1024,
        prompt::spec_prompt_content(input) == Ok::<
            (Seq<char>, Seq<prompt::ImageView>),
            error::ErrorView,
        >((message, images)),
    ensures
        r matches Ok(step) && (step@ matches StepView::Send {
            command,
            sent: SentView::Steer { id },
        } && turn_laws::carries(command, id, "steer"@, message, images)),
        final(turn)@ == old(turn)@,
{
    turn_laws::law_steer_carries_its_content(old(turn)@, old(ledger)@, input, 0);
}

/// The prompt of a turn is written with the message and exactly the images of its input, and takes
/// one number of the ledger.
pub proof fn law_open_turn_writes_the_whole_prompt(
    ledger: &mut CommandLedger,
    input: &[UserInput],
    r: Result<Opening, HarnessServerError>,
)
    requires
        call_ensures(turn::open_turn, (ledger, input), r),
    ensures
        match prompt::spec_prompt_content(input@.map_values(|item: UserInput| item@)) {
            Ok((message, images)) => {
                &&& r matches Ok(opening)
                &&& turn_laws::carries(
                    opening@.command,
                    opening@.prompt_id,
                    "prompt"@,
                    message,
                    images,
                )
                &&& old(ledger)@.next_id < u64::MAX ==> final(ledger)@.next_id == old(
                    ledger,
                )@.next_id + 1
            },
            Err(fault) => r matches Err(e) && e@ == fault && final(ledger)@.next_id == old(
                ledger,
            )@.next_id,
        },
        final(ledger)@.pending == old(ledger)@.pending,
{
    turn_laws::law_prompt_carries_its_content::<()>(
        old(ledger)@,
        input@.map_values(|item: UserInput| item@),
        0,
    );
}

/// A turn ends with whether it was interrupted and with the usage that it kept, or with its error.
pub proof fn law_ended_turns<U>(
    end: AwaitEnd<U>,
    r: Result<TurnOutcome<U>, HarnessServerError>,
)
    requires
        call_ensures(AwaitEnd::<U>::ended, (end,), r),
    ensures
        end.turn@.turn_error is None ==> (r matches Ok(outcome) && outcome.interrupted
            == end.turn@.interrupted && outcome.usage == end.turn@.usage),
        end.turn@.turn_error matches Some(message) ==> (r matches Err(e) && e@
            == error::ErrorView::Protocol("OMP protocol error: "@ + message)),
{
    turn_laws::law_a_turn_ends_with_what_it_kept(end.turn@);
}

// ---------------------------------------------------------------------------
// Prompts, states and setups
// ---------------------------------------------------------------------------

/// The images of a prompt are those of the inputs that bring one, as many and in their order.
pub proof fn law_prompt_content_keeps_the_images_in_order(
    input: &[UserInput],
    r: Result<Prompt, HarnessServerError>,
)
    requires
        call_ensures(prompt::prompt_content, (input,), r),
    ensures
        r matches Ok(content) ==> {
            let items = input@.map_values(|item: UserInput| item@);
            let sources = items.filter(prompt_laws::brings_image());
            let images = content@.1;
            &&& images.len() == sources.len()
            &&& forall|n: int|
                0 <= n < images.len() ==> prompt_laws::is_the_image(
                    #[trigger] sources[n],
                    images[n],
                )
        },
{
    prompt_laws::law_images_follow_the_inputs(input@.map_values(|item: UserInput| item@));
}

/// A state passes just if it shows the profile, and what is handed back is its session file.
pub proof fn law_check_state_passes_the_profile(
    state: &Json,
    r: Result<String, HarnessServerError>,
    file: Seq<char>,
)
    requires
        call_ensures(profile::check_state, (state,), r),
    ensures
        (r matches Ok(found) && found@ == file) <==> profile_laws::shows_the_profile(state@, file),
{
    profile_laws::law_a_state_passes_just_if_it_shows_the_profile(state@, file);
}

/// After the list of models the desired one is selected if it stands anywhere in the list.
pub proof fn law_answered_selects_a_listed_model(
    waiting: AwaitResponse,
    profile: &OmpProfile,
    response: &Json,
    r: Result<SetupStep, SetupFailure>,
    body: JsonView,
    models: Seq<JsonView>,
    i: int,
)
    requires
        call_ensures(AwaitResponse::answered, (waiting, profile, response), r),
        waiting.stage == CommandStage::AvailableModels,
        response@.get("data"@) == Some(body),
        body.get("models"@) == Some(JsonView::List(models)),
        0 <= i < models.len(),
        models[i].get("provider"@) == Some(JsonView::Text(waiting.data@.desired.0)),
        models[i].get("id"@) == Some(JsonView::Text(waiting.data@.desired.1)),
    ensures
        r matches Ok(step) && (step@ matches SetupStepView::Command {
            name,
            fields,
            version_two,
            stage,
            data,
        } && {
            &&& name == "set_model"@
            &&& json::lookup(fields, "provider"@) == Some(
                JsonView::Text(waiting.data@.desired.0),
            )
            &&& json::lookup(fields, "modelId"@) == Some(JsonView::Text(waiting.data@.desired.1))
            &&& data == waiting.data@
        }),
{
    setup_laws::law_a_listed_model_is_selected(
        profile@,
        waiting.data@,
        response@,
        body,
        models,
        i,
    );
}

/// After a list of models without the desired one the setup fails.
pub proof fn law_answered_refuses_an_unlisted_model(
    waiting: AwaitResponse,
    profile: &OmpProfile,
    response: &Json,
    r: Result<SetupStep, SetupFailure>,
)
    requires
        call_ensures(AwaitResponse::answered, (waiting, profile, response), r),
        waiting.stage == CommandStage::AvailableModels,
        response@.get("data"@) matches Some(body) ==> (body.get("models"@) matches Some(
            JsonView::List(models),
        ) ==> forall|i: int|
            0 <= i < models.len() ==> !setup_laws::names_model(
                #[trigger] models[i],
                waiting.data@.desired.0,
                waiting.data@.desired.1,
            )),
    ensures
        r is Err,
{
    setup_laws::law_an_unlisted_model_fails(profile@, waiting.data@, response@);
}

/// A command of a setup is written under a fresh number with its name and its fields, and it is this
/// command whose response is awaited.
pub proof fn law_begun_commands(
    ledger: &mut CommandLedger,
    name: &str,
    fields: Fields,
    r: (AwaitedCommand, Json),
    other: Seq<char>,
)
    requires
        call_ensures(session::begin_command, (ledger, name, fields), r),
    ensures
        r.0@.name == name@,
        r.0@.id == ledger::spec_command_id(name@, old(ledger)@.next_id),
        r.1@.get("id"@) == Some(JsonView::Text(r.0@.id)),
        r.1@.get("type"@) == Some(JsonView::Text(name@)),
        other != "id"@ && other != "type"@ ==> r.1@.get(other) == json::lookup(fields@, other),
        final(ledger)@.pending == old(ledger)@.pending,
        old(ledger)@.next_id < u64::MAX ==> final(ledger)@.next_id == old(ledger)@.next_id + 1,
{
    session::law_command_document_names_itself(fields@, r.0@.id, name@, other);
}

/// A setup that is done leaves its state with the session, and so does one that failed; nothing else
/// of the session changes.
pub proof fn law_finished_setups(session: &mut OmpSession, state: Json)
    requires
        call_ensures(OmpSession::finish_setup, (session, state), ()),
    ensures
        final(session).state@ == state@,
        final(session).profile == old(session).profile,
        final(session).thread_id == old(session).thread_id,
        final(session).ledger == old(session).ledger,
{
}

/// A setup that failed hands its error on and leaves the last state that was read with the session.
pub proof fn law_failed_setups(
    session: &mut OmpSession,
    failure: SetupFailure,
    e: HarnessServerError,
)
    requires
        call_ensures(OmpSession::fail_setup, (session, failure), e),
    ensures
        e == failure.error,
        final(session).state@ == failure.state@,
        final(session).profile == old(session).profile,
        final(session).thread_id == old(session).thread_id,
        final(session).ledger == old(session).ledger,
{
}

/// A session begins with its profile and its thread, numbers its commands from one, waits for no
/// response, and knows no state.
pub proof fn law_new_sessions(profile: OmpProfile, thread_id: &str, session: OmpSession)
    requires
        call_ensures(OmpSession::new, (profile, thread_id), session),
    ensures
        session.profile == profile,
        session.thread_id@ == thread_id@,
        session.ledger@.next_id == 1,
        forall|id: Seq<char>| !#[trigger] session.ledger@.pending.dom().contains(id),
        session.state@ == JsonView::Null,
{
}

/// The wait for a response begins when it is begun.
pub proof fn law_begun_waits(
    awaited: AwaitedCommand,
    timeout: u64,
    now: u64,
    wait: CommandWait,
)
    requires
        call_ensures(CommandWait::begin, (awaited, timeout, now), wait),
    ensures
        wait.awaited == awaited,
        wait.since == now,
        wait.timeout == timeout,
{
}

/// What is left of the wait for a response is what has not passed of its time since it began,
/// however many frames came in between.
pub proof fn law_waits_run_out(
    wait: &CommandWait,
    now: u64,
    r: Result<u64, HarnessServerError>,
)
    requires
        call_ensures(CommandWait::remaining, (wait, now), r),
        now >= wait.since,
    ensures
        now - wait.since < wait.timeout ==> (r matches Ok(left) && left == wait.timeout - (now
            - wait.since)),
        now - wait.since >= wait.timeout ==> r is Err,
{
}

/// Noted progress changes when progress was made and nothing else of a turn.
pub proof fn law_noted_progress<U>(turn: &mut Turn<U>, now: u64)
    requires
        call_ensures(Turn::<U>::note_progress, (turn, now), ()),
    ensures
        final(turn)@ == (TurnView { last_progress: now, ..old(turn)@ }),
{
}

// ---------------------------------------------------------------------------
// The operator's settings
// ---------------------------------------------------------------------------

/// A binary that passes the check is the one that was checked.
pub proof fn law_checked_binaries(
    path: String,
    facts: ExecutableFacts,
    r: Result<CheckedBinary, HarnessServerError>,
)
    requires
        call_ensures(loading::validate_executable, (path, Ok(facts)), r),
    ensures
        r matches Ok(binary) ==> binary@ == path@ && facts.is_file,
        r is Ok <==> facts.is_file && (facts.mode & 0o100u32 != 0 || facts.mode & 0o010u32 != 0
            || facts.mode & 0o001u32 != 0),
{
    record_laws::law_accepted_binaries(facts);
}

/// A binary whose version is right is the one that was asked for it.
pub proof fn law_verified_binaries(
    binary: CheckedBinary,
    run: VersionRun,
    r: Result<VerifiedBinary, HarnessServerError>,
)
    requires
        call_ensures(loading::verify_binary_version, (binary, Ok(run)), r),
    ensures
        r is Ok <==> run.success && text::spec_trim(run.stdout@) == "omp/18.3.0"@,
        r matches Ok(verified) ==> verified@ == binary@,
{
    record_laws::law_accepted_versions(run.success, run.stdout@, Seq::empty());
}

/// A profile is made of the binary, the models and the root that it is given.
pub proof fn law_profiles(
    binary: VerifiedBinary,
    models: AllowedModels,
    root: String,
    profile: OmpProfile,
)
    requires
        call_ensures(OmpProfile::with_binary, (binary, models, root), profile),
    ensures
        profile@.binary == binary@,
        profile@.allowed_models == models@,
        profile@.session_root == root@,
{
}

/// A model is shown by its provider and its name, and by nothing where there is none.
pub proof fn law_model_labels(model: Option<&Model>, r: (String, String))
    requires
        call_ensures(server::model_labels, (model,), r),
    ensures
        model matches Some(given) ==> r.0@ == given.provider@ && r.1@ == given.id@,
        model is None ==> r.0@.len() == 0 && r.1@.len() == 0,
{
}

/// A key names a thread just if it is given and not blank.
pub proof fn law_thread_keys(key: Option<&str>, r: Option<String>)
    requires
        call_ensures(server::thread_key, (key,), r),
    ensures
        r matches Some(id) ==> (key matches Some(given) && id@ == given@),
        r is Some <==> (key matches Some(given) && exists|i: int|
            0 <= i < given@.len() && !text::spec_whitespace(#[trigger] given@[i])),
{
    if let Some(given) = key {
        server_laws::law_nonblank(given@);
    }
}

} // verus!
