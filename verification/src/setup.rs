//! Setting a session up: bringing the runtime into the state of the profile, choosing its model,
//! and recording the session for its thread.
//!
//! Each step says what is to be done next and carries what waits for it. The commands of a step are
//! sent and answered one at a time.

use vstd::prelude::*;

use crate::error;
use crate::error::{protocol_error, HarnessServerError};
use crate::json;
use crate::json::{Fields, Json};
use crate::path;
use crate::path::same_path;
use crate::persistence;
use crate::persistence::{MappingView, SessionMapping};
use crate::profile;
use crate::profile::{
    check_session_path, check_state, validate_contained_session_path, OmpProfile, PathSeen,
    ProfileView, SeenView,
};
use crate::session;
use crate::session::{state_model, OmpSession};
use crate::text;
use crate::text::{option_eq, split_once, text_eq};

verus! {

/// The commands that set a session up.
#[derive(Debug, Clone, Copy, PartialEq, Eq, Structural)]
pub enum CommandStage {
    Negotiate,
    SwitchSession,
    HostTools,
    UriSchemes,
    Subagents,
    SteeringMode,
    FollowUpMode,
    InterruptMode,
    StartState,
    AvailableModels,
    SelectModel,
    ModelState,
}

/// The occasions on which it is looked where the session file leads.
#[derive(Debug, Clone, Copy, PartialEq, Eq, Structural)]
pub enum LookStage {
    /// To verify the state under the chosen model.
    Model,
    /// To verify the state at the start.
    Startup,
    /// To record the session.
    Record,
}

/// The session that a thread is to be resumed with.
#[derive(Debug)]
pub struct ResumeTarget {
    pub session_id: String,
    pub session_file: String,
}

/// What a setup keeps from step to step.
#[derive(Debug)]
pub struct SetupData {
    pub thread_id: String,
    pub requested_provider: String,
    pub requested_model: String,
    pub resume: Option<ResumeTarget>,
    /// Whether the session is being started, or already was.
    pub starting: bool,
    pub state: Json,
    pub desired_provider: String,
    pub desired_model: String,
}

/// The content of a [`SetupData`].
pub struct SetupView {
    pub thread_id: Seq<char>,
    pub requested: (Seq<char>, Seq<char>),
    pub resume: Option<(Seq<char>, Seq<char>)>,
    pub starting: bool,
    pub state: json::JsonView,
    pub desired: (Seq<char>, Seq<char>),
}

impl View for SetupData {
    type V = SetupView;

    open spec fn view(&self) -> SetupView {
        SetupView {
            thread_id: self.thread_id@,
            requested: (self.requested_provider@, self.requested_model@),
            resume: match self.resume {
                Some(target) => Some((target.session_id@, target.session_file@)),
                None => None,
            },
            starting: self.starting,
            state: self.state@,
            desired: (self.desired_provider@, self.desired_model@),
        }
    }
}

/// A setup that waits for the response to a command.
#[derive(Debug)]
pub struct AwaitResponse {
    pub stage: CommandStage,
    pub data: SetupData,
}

/// A setup that waits to be told where the session file leads.
#[derive(Debug)]
pub struct AwaitLook {
    pub stage: LookStage,
    pub path: String,
    pub data: SetupData,
}

/// A setup that waits for the session to be recorded.
#[derive(Debug)]
pub struct AwaitSave {
    pub state: Json,
}

/// What is to be done next.
#[derive(Debug)]
pub enum SetupStep {
    /// Send the command and hand on its response. From the negotiated version on, frames are read
    /// by its rules.
    Command { name: &'static str, fields: Fields, version_two: bool, reply: AwaitResponse },
    /// Look where the path leads.
    Look { look: AwaitLook },
    /// Record the session for its thread.
    Save { mapping: SessionMapping, save: AwaitSave },
    /// The session is ready, with the state that the runtime is in.
    Ready { state: Json },
}

/// The content of a [`SetupStep`].
pub enum SetupStepView {
    Command {
        name: Seq<char>,
        fields: Seq<(Seq<char>, json::JsonView)>,
        version_two: bool,
        stage: CommandStage,
        data: SetupView,
    },
    Look { path: Seq<char>, occasion: LookStage, data: SetupView },
    Save { mapping: MappingView, state: json::JsonView },
    Ready { state: json::JsonView },
}

impl View for SetupStep {
    type V = SetupStepView;

    open spec fn view(&self) -> SetupStepView {
        match self {
            SetupStep::Command { name, fields, version_two, reply } => SetupStepView::Command {
                name: name@,
                fields: fields@,
                version_two: *version_two,
                stage: reply.stage,
                data: reply.data@,
            },
            SetupStep::Look { look } => SetupStepView::Look {
                path: look.path@,
                occasion: look.stage,
                data: look.data@,
            },
            SetupStep::Save { mapping, save } => SetupStepView::Save {
                mapping: mapping@,
                state: save.state@,
            },
            SetupStep::Ready { state } => SetupStepView::Ready { state: state@ },
        }
    }
}

/// A setup that failed: why, and the state that the runtime was last known to be in.
#[derive(Debug)]
pub struct SetupFailure {
    pub error: HarnessServerError,
    pub state: Json,
}

/// Whether a step, or a failure in a state, is what a specification asks for.
pub open spec fn proceeds(
    got: Result<SetupStep, SetupFailure>,
    want: Result<SetupStepView, error::ErrorView>,
    state: json::JsonView,
) -> bool {
    match (got, want) {
        (Ok(step), Ok(content)) => step@ == content,
        (Err(failure), Err(fault)) => failure.error@ == fault && failure.state@ == state,
        _ => false,
    }
}

impl SetupData {
    fn failed(self, error: HarnessServerError) -> (r: Result<SetupStep, SetupFailure>)
        ensures
            r matches Err(failure) && failure.error == error && failure.state@ == self@.state,
    {
        Err(SetupFailure { error, state: self.state })
    }
}

impl OmpSession {
    /// Takes a setup that succeeded: the session is in the state that the runtime gave last.
    pub fn finish_setup(&mut self, state: Json)
        ensures
            final(self).state@ == state@,
            final(self).profile == old(self).profile,
            final(self).thread_id == old(self).thread_id,
            final(self).ledger == old(self).ledger,
    {
        self.state = state;
    }

    /// Takes a setup that failed: the session is in the state that the runtime gave last, whether
    /// or not it passed.
    pub fn fail_setup(&mut self, failure: SetupFailure) -> (error: HarnessServerError)
        ensures
            error == failure.error,
            final(self).state@ == failure.state@,
            final(self).profile == old(self).profile,
            final(self).thread_id == old(self).thread_id,
            final(self).ledger == old(self).ledger,
    {
        self.state = failure.state;
        failure.error
    }
}

// ---------------------------------------------------------------------------
// The commands
// ---------------------------------------------------------------------------

/// One string member.
pub open spec fn text_field(name: Seq<char>, value: Seq<char>) -> Seq<
    (Seq<char>, json::JsonView),
> {
    seq![(name, json::JsonView::Text(value))]
}

/// The name of a command.
pub open spec fn stage_name(stage: CommandStage) -> Seq<char> {
    match stage {
        CommandStage::Negotiate => "negotiate_protocol"@,
        CommandStage::SwitchSession => "switch_session"@,
        CommandStage::HostTools => "set_host_tools"@,
        CommandStage::UriSchemes => "set_host_uri_schemes"@,
        CommandStage::Subagents => "set_subagent_subscription"@,
        CommandStage::SteeringMode => "set_steering_mode"@,
        CommandStage::FollowUpMode => "set_follow_up_mode"@,
        CommandStage::InterruptMode => "set_interrupt_mode"@,
        CommandStage::StartState => "get_state"@,
        CommandStage::AvailableModels => "get_available_models"@,
        CommandStage::SelectModel => "set_model"@,
        CommandStage::ModelState => "get_state"@,
    }
}

/// The fields of a command.
pub open spec fn stage_fields(stage: CommandStage, data: SetupView) -> Seq<
    (Seq<char>, json::JsonView),
> {
    match stage {
        CommandStage::Negotiate => seq![("protocolVersion"@, json::JsonView::Unsigned(2))],
        CommandStage::SwitchSession => match data.resume {
            Some((_, file)) => text_field("sessionPath"@, file),
            None => seq![],
        },
        CommandStage::HostTools => seq![("tools"@, json::JsonView::List(seq![]))],
        CommandStage::UriSchemes => seq![("schemes"@, json::JsonView::List(seq![]))],
        CommandStage::Subagents => text_field("level"@, "off"@),
        CommandStage::SteeringMode => text_field("mode"@, "one-at-a-time"@),
        CommandStage::FollowUpMode => text_field("mode"@, "one-at-a-time"@),
        CommandStage::InterruptMode => text_field("mode"@, "immediate"@),
        CommandStage::StartState => seq![],
        CommandStage::AvailableModels => seq![],
        CommandStage::SelectModel => seq![
            ("provider"@, json::JsonView::Text(data.desired.0)),
            ("modelId"@, json::JsonView::Text(data.desired.1)),
        ],
        CommandStage::ModelState => seq![],
    }
}

/// The step that sends a command.
pub open spec fn spec_issue(stage: CommandStage, data: SetupView) -> SetupStepView {
    SetupStepView::Command {
        name: stage_name(stage),
        fields: stage_fields(stage, data),
        version_two: stage != CommandStage::Negotiate,
        stage,
        data,
    }
}

fn issue(stage: CommandStage, data: SetupData) -> (step: SetupStep)
    ensures
        step@ == spec_issue(stage, data@),
{
    let (name, fields): (&'static str, Fields) = match stage {
        CommandStage::Negotiate => (
            "negotiate_protocol",
            Fields::new().add("protocolVersion", Json::Unsigned(2)),
        ),
        CommandStage::SwitchSession => (
            "switch_session",
            match &data.resume {
                Some(target) => Fields::new().add_text(
                    "sessionPath",
                    target.session_file.as_str(),
                ),
                None => Fields::new(),
            },
        ),
        CommandStage::HostTools => (
            "set_host_tools",
            Fields::new().add("tools", Json::List(Vec::new())),
        ),
        CommandStage::UriSchemes => (
            "set_host_uri_schemes",
            Fields::new().add("schemes", Json::List(Vec::new())),
        ),
        CommandStage::Subagents => (
            "set_subagent_subscription",
            Fields::new().add_text("level", "off"),
        ),
        CommandStage::SteeringMode => (
            "set_steering_mode",
            Fields::new().add_text("mode", "one-at-a-time"),
        ),
        CommandStage::FollowUpMode => (
            "set_follow_up_mode",
            Fields::new().add_text("mode", "one-at-a-time"),
        ),
        CommandStage::InterruptMode => (
            "set_interrupt_mode",
            Fields::new().add_text("mode", "immediate"),
        ),
        CommandStage::StartState => ("get_state", Fields::new()),
        CommandStage::AvailableModels => ("get_available_models", Fields::new()),
        CommandStage::SelectModel => (
            "set_model",
            Fields::new().add_text("provider", data.desired_provider.as_str()).add_text(
                "modelId",
                data.desired_model.as_str(),
            ),
        ),
        CommandStage::ModelState => ("get_state", Fields::new()),
    };
    assert(fields@ =~= stage_fields(stage, data@));
    let version_two = stage != CommandStage::Negotiate;
    SetupStep::Command { name, fields, version_two, reply: AwaitResponse { stage, data } }
}

// ---------------------------------------------------------------------------
// The model
// ---------------------------------------------------------------------------

/// The provider and the model that are asked for: both, neither, or both in one word with a slash.
pub open spec fn spec_requested_pair(provider: Seq<char>, model: Seq<char>) -> Result<
    Option<(Seq<char>, Seq<char>)>,
    error::ErrorView,
> {
    let unsplit = Err(
        error::protocol_fault("OMP model overrides without a provider must use provider/model"@),
    );
    if provider.len() == 0 && model.len() == 0 {
        Ok(None)
    } else if provider.len() == 0 {
        match text::spec_split_once(model, '/') {
            None => unsplit,
            Some((p, m)) => if p.len() == 0 || m.len() == 0 {
                unsplit
            } else {
                Ok(Some((p, m)))
            },
        }
    } else if model.len() > 0 {
        Ok(Some((provider, model)))
    } else {
        Err(error::protocol_fault("OMP provider and model must be selected together"@))
    }
}

fn is_blank(s: &str) -> (yes: bool)
    ensures
        yes == (s@.len() == 0),
{
    proof {
        reveal_strlit("");
        assert(""@ =~= Seq::<char>::empty());
        assert(s@.len() == 0 <==> s@ =~= ""@);
    }
    text_eq(s, "")
}

/// The provider and the model that are asked for.
pub fn requested_pair(provider: &str, model: &str) -> (r: Result<
    Option<(String, String)>,
    HarnessServerError,
>)
    ensures
        match (r, spec_requested_pair(provider@, model@)) {
            (Ok(Some(pair)), Ok(Some(want))) => (pair.0@, pair.1@) == want,
            (Ok(None), Ok(None)) => true,
            (Err(e), Err(fault)) => e@ == fault,
            _ => false,
        },
{
    if is_blank(provider) && is_blank(model) {
        return Ok(None);
    }
    if is_blank(provider) {
        let (p, m) = match split_once(model, '/') {
            Some(pair) => pair,
            None => {
                return Err(
                    protocol_error(
                        "OMP model overrides without a provider must use provider/model",
                    ),
                );
            },
        };
        if is_blank(p) || is_blank(m) {
            return Err(
                protocol_error("OMP model overrides without a provider must use provider/model"),
            );
        }
        return Ok(Some((p.to_owned(), m.to_owned())));
    }
    if !is_blank(model) {
        return Ok(Some((provider.to_owned(), model.to_owned())));
    }
    Err(protocol_error("OMP provider and model must be selected together"))
}

/// The step to look where the session file of the state leads.
pub open spec fn spec_look(profile: ProfileView, data: SetupView, stage: LookStage) -> Result<
    SetupStepView,
    error::ErrorView,
> {
    match profile::spec_check_state(data.state) {
        Err(e) => Err(e),
        Ok(file) => match profile::spec_check_session_path(profile.session_root, file) {
            Err(e) => Err(e),
            Ok(_) => Ok(SetupStepView::Look { path: file, occasion: stage, data }),
        },
    }
}

/// What follows once the runtime should have the desired model.
pub open spec fn spec_confirm(profile: ProfileView, data: SetupView) -> Result<
    SetupStepView,
    error::ErrorView,
> {
    match session::spec_state_model(data.state) {
        Err(e) => Err(e),
        Ok(effective) => if effective != data.desired {
            Err(
                error::protocol_fault(
                    "OMP effective provider/model differs from the selected allowlisted model"@,
                ),
            )
        } else {
            match profile::spec_verify_allowed_model(profile, effective.0, effective.1) {
                Err(e) => Err(e),
                Ok(_) => spec_look(profile, data, LookStage::Model),
            }
        },
    }
}

/// What follows once the state of the runtime is known: the model is changed if another than that
/// of the state is asked for.
pub open spec fn spec_choose_model(profile: ProfileView, data: SetupView) -> Result<
    SetupStepView,
    error::ErrorView,
> {
    match spec_requested_pair(data.requested.0, data.requested.1) {
        Err(e) => Err(e),
        Ok(requested) => match session::spec_state_model(data.state) {
            Err(e) => Err(e),
            Ok(observed) => {
                let desired = match requested {
                    Some(pair) => pair,
                    None => observed,
                };
                match profile::spec_verify_allowed_model(profile, desired.0, desired.1) {
                    Err(e) => Err(e),
                    Ok(_) => if desired != observed {
                        Ok(
                            spec_issue(
                                CommandStage::AvailableModels,
                                SetupView { desired, ..data },
                            ),
                        )
                    } else {
                        spec_confirm(profile, SetupView { desired, ..data })
                    },
                }
            },
        },
    }
}

/// Whether a model is the desired one.
pub open spec fn is_desired(model: json::JsonView, desired: (Seq<char>, Seq<char>)) -> bool {
    model.text("provider"@) == Some(desired.0) && model.text("id"@) == Some(desired.1)
}

/// Whether the desired model is among some models.
pub open spec fn any_desired(models: Seq<json::JsonView>, desired: (Seq<char>, Seq<char>)) -> bool {
    exists|i: int| 0 <= i < models.len() && is_desired(#[trigger] models[i], desired)
}

/// Whether the runtime lists the desired model among those that it has.
pub open spec fn lists_model(response: json::JsonView, desired: (Seq<char>, Seq<char>)) -> bool {
    match response.nested("data"@, "models"@) {
        Some(json::JsonView::List(models)) => any_desired(models, desired),
        _ => false,
    }
}

fn check_lists_model(response: &Json, provider: &str, model: &str) -> (yes: bool)
    ensures
        yes == lists_model(response@, (provider@, model@)),
{
    match response.nested("data", "models") {
        Some(Json::List(models)) => {
            let ghost all = json::items_content(models@);
            proof {
                json::lemma_items_content(models@);
            }
            let mut i: usize = 0;
            while i < models.len()
                invariant
                    i <= models@.len(),
                    all == json::items_content(models@),
                    all.len() == models@.len(),
                    forall|j: int| 0 <= j < all.len() ==> #[trigger] all[j] == models@[j].content(),
                    forall|j: int|
                        0 <= j < i ==> !is_desired(#[trigger] all[j], (provider@, model@)),
                    response@.nested("data"@, "models"@) == Some(json::JsonView::List(all)),
                decreases models@.len() - i,
            {
                assert(all[i as int] == models@[i as int]@);
                if option_eq(models[i].text("provider"), provider) && option_eq(
                    models[i].text("id"),
                    model,
                ) {
                    assert(is_desired(all[i as int], (provider@, model@)));
                    assert(any_desired(all, (provider@, model@)));
                    return true;
                }
                i += 1;
            }
            false
        },
        _ => false,
    }
}

fn look(profile: &OmpProfile, data: SetupData, stage: LookStage) -> (r: Result<
    SetupStep,
    SetupFailure,
>)
    ensures
        proceeds(r, spec_look(profile@, data@, stage), data@.state),
{
    let path = match check_state(&data.state) {
        Ok(path) => path,
        Err(e) => {
            return data.failed(e);
        },
    };
    if let Err(e) = check_session_path(profile.session_root(), path.as_str()) {
        return data.failed(e);
    }
    Ok(SetupStep::Look { look: AwaitLook { stage, path, data } })
}

fn confirm(profile: &OmpProfile, data: SetupData) -> (r: Result<SetupStep, SetupFailure>)
    ensures
        proceeds(r, spec_confirm(profile@, data@), data@.state),
{
    let (provider, model) = match state_model(&data.state) {
        Ok(pair) => pair,
        Err(e) => {
            return data.failed(e);
        },
    };
    if !text_eq(provider.as_str(), data.desired_provider.as_str()) || !text_eq(
        model.as_str(),
        data.desired_model.as_str(),
    ) {
        return data.failed(
            protocol_error(
                "OMP effective provider/model differs from the selected allowlisted model",
            ),
        );
    }
    if let Err(e) = profile.verify_allowed_model(provider.as_str(), model.as_str()) {
        return data.failed(e);
    }
    look(profile, data, LookStage::Model)
}

fn choose_model(profile: &OmpProfile, data: SetupData) -> (r: Result<SetupStep, SetupFailure>)
    ensures
        proceeds(r, spec_choose_model(profile@, data@), data@.state),
{
    let requested = match requested_pair(
        data.requested_provider.as_str(),
        data.requested_model.as_str(),
    ) {
        Ok(requested) => requested,
        Err(e) => {
            return data.failed(e);
        },
    };
    let (observed_provider, observed_model) = match state_model(&data.state) {
        Ok(pair) => pair,
        Err(e) => {
            return data.failed(e);
        },
    };
    let (desired_provider, desired_model) = match requested {
        Some(pair) => pair,
        None => (observed_provider.clone(), observed_model.clone()),
    };
    if let Err(e) = profile.verify_allowed_model(
        desired_provider.as_str(),
        desired_model.as_str(),
    ) {
        return data.failed(e);
    }
    let change = !text_eq(desired_provider.as_str(), observed_provider.as_str()) || !text_eq(
        desired_model.as_str(),
        observed_model.as_str(),
    );
    let data = SetupData { desired_provider, desired_model, ..data };
    if change {
        Ok(issue(CommandStage::AvailableModels, data))
    } else {
        confirm(profile, data)
    }
}

// ---------------------------------------------------------------------------
// Recording the session
// ---------------------------------------------------------------------------

/// What keeps a resumed runtime from being in the session that was asked for.
pub open spec fn spec_check_resumed(data: SetupView) -> Result<(), error::ErrorView> {
    match data.resume {
        None => Ok(()),
        Some((session_id, session_file)) => match data.state.text("sessionId"@) {
            None => Err(error::protocol_fault("OMP resumed state omitted sessionId"@)),
            Some(id) => match data.state.text("sessionFile"@) {
                None => Err(error::protocol_fault("OMP resumed state omitted sessionFile"@)),
                Some(file) => if id == session_id && path::spec_components(file)
                    == path::spec_components(session_file) {
                    Ok(())
                } else {
                    Err(error::protocol_fault("OMP resumed a different persisted session"@))
                },
            },
        },
    }
}

fn check_resumed(data: &SetupData) -> (r: Result<(), HarnessServerError>)
    ensures
        error::agrees(r, spec_check_resumed(data@)),
{
    match &data.resume {
        None => Ok(()),
        Some(target) => {
            let id = match data.state.text("sessionId") {
                Some(id) => id,
                None => {
                    return Err(protocol_error("OMP resumed state omitted sessionId"));
                },
            };
            let file = match data.state.text("sessionFile") {
                Some(file) => file,
                None => {
                    return Err(protocol_error("OMP resumed state omitted sessionFile"));
                },
            };
            if !text_eq(id, target.session_id.as_str()) || !same_path(
                file,
                target.session_file.as_str(),
            ) {
                return Err(protocol_error("OMP resumed a different persisted session"));
            }
            Ok(())
        },
    }
}

/// What follows once the state at the start is verified: the session is to be recorded.
pub open spec fn spec_persist(profile: ProfileView, data: SetupView) -> Result<
    SetupStepView,
    error::ErrorView,
> {
    match data.state.text("sessionId"@) {
        None => Err(error::protocol_fault("OMP state omitted sessionId"@)),
        Some(_) => match data.state.text("sessionFile"@) {
            None => Err(error::protocol_fault("OMP state omitted sessionFile"@)),
            Some(file) => match profile::spec_check_session_path(profile.session_root, file) {
                Err(e) => Err(e),
                Ok(_) => Ok(
                    SetupStepView::Look { path: file, occasion: LookStage::Record, data },
                ),
            },
        },
    }
}

fn persist_mapping(profile: &OmpProfile, data: SetupData) -> (r: Result<
    SetupStep,
    SetupFailure,
>)
    ensures
        proceeds(r, spec_persist(profile@, data@), data@.state),
{
    if data.state.text("sessionId").is_none() {
        return data.failed(protocol_error("OMP state omitted sessionId"));
    }
    let path = match data.state.text("sessionFile") {
        Some(file) => file.to_owned(),
        None => {
            return data.failed(protocol_error("OMP state omitted sessionFile"));
        },
    };
    if let Err(e) = check_session_path(profile.session_root(), path.as_str()) {
        return data.failed(e);
    }
    Ok(SetupStep::Look { look: AwaitLook { stage: LookStage::Record, path, data } })
}

// ---------------------------------------------------------------------------
// From step to step
// ---------------------------------------------------------------------------

/// The first step of a session that is being started: the runtime must know the second version of
/// the protocol.
pub open spec fn spec_initialize(data: SetupView, versions: Seq<u64>) -> Result<
    SetupStepView,
    error::ErrorView,
> {
    if versions.contains(2) {
        Ok(spec_issue(CommandStage::Negotiate, data))
    } else {
        Err(error::protocol_fault("centaur-safe requires OMP protocol v2"@))
    }
}

/// The data of a session that is being started.
pub open spec fn starting_data(
    thread_id: Seq<char>,
    requested: (Seq<char>, Seq<char>),
    resume: Option<(Seq<char>, Seq<char>)>,
) -> SetupView {
    SetupView {
        thread_id,
        requested,
        resume,
        starting: true,
        state: json::JsonView::Null,
        desired: (seq![], seq![]),
    }
}

/// The first step of a session that is being started, once the runtime has greeted with the
/// versions of the protocol that it knows.
pub fn initialize(
    thread_id: &str,
    requested_provider: &str,
    requested_model: &str,
    resume: Option<&SessionMapping>,
    versions: &Vec<u64>,
) -> (r: Result<SetupStep, HarnessServerError>)
    ensures
        error::agrees(
            r,
            spec_initialize(
                starting_data(
                    thread_id@,
                    (requested_provider@, requested_model@),
                    match resume {
                        Some(mapping) => Some((mapping.session_id@, mapping.session_file@)),
                        None => None,
                    },
                ),
                versions@,
            ),
        ),
{
    let data = SetupData {
        thread_id: thread_id.to_owned(),
        requested_provider: requested_provider.to_owned(),
        requested_model: requested_model.to_owned(),
        resume: match resume {
            Some(mapping) => Some(
                ResumeTarget {
                    session_id: mapping.session_id.clone(),
                    session_file: mapping.session_file.clone(),
                },
            ),
            None => None,
        },
        starting: true,
        state: Json::Null,
        desired_provider: String::new(),
        desired_model: String::new(),
    };
    proof {
        assert(data@.desired.0 =~= Seq::<char>::empty());
        assert(data@.desired.1 =~= Seq::<char>::empty());
    }
    let mut i: usize = 0;
    while i < versions.len()
        invariant
            i <= versions@.len(),
            forall|j: int| 0 <= j < i ==> versions@[j] != 2,
            data@ == starting_data(
                thread_id@,
                (requested_provider@, requested_model@),
                match resume {
                    Some(mapping) => Some((mapping.session_id@, mapping.session_file@)),
                    None => None,
                },
            ),
        decreases versions@.len() - i,
    {
        if versions[i] == 2 {
            return Ok(issue(CommandStage::Negotiate, data));
        }
        i += 1;
    }
    Err(protocol_error("centaur-safe requires OMP protocol v2"))
}

/// The data of a session that runs and whose model is to be ensured.
pub open spec fn running_data(
    thread_id: Seq<char>,
    requested: (Seq<char>, Seq<char>),
    state: json::JsonView,
) -> SetupView {
    SetupView {
        thread_id,
        requested,
        resume: None,
        starting: false,
        state,
        desired: (seq![], seq![]),
    }
}

/// The first step to make sure that a session that runs has the model that is asked for.
pub fn ensure_model(
    profile: &OmpProfile,
    thread_id: &str,
    state: &Json,
    requested_provider: &str,
    requested_model: &str,
) -> (r: Result<SetupStep, SetupFailure>)
    ensures
        proceeds(
            r,
            spec_choose_model(
                profile@,
                running_data(thread_id@, (requested_provider@, requested_model@), state@),
            ),
            state@,
        ),
{
    let data = SetupData {
        thread_id: thread_id.to_owned(),
        requested_provider: requested_provider.to_owned(),
        requested_model: requested_model.to_owned(),
        resume: None,
        starting: false,
        state: state.duplicate(),
        desired_provider: String::new(),
        desired_model: String::new(),
    };
    proof {
        assert(data@.desired.0 =~= Seq::<char>::empty());
        assert(data@.desired.1 =~= Seq::<char>::empty());
    }
    choose_model(profile, data)
}

/// What follows the response to a command.
pub open spec fn spec_after_response(
    profile: ProfileView,
    stage: CommandStage,
    data: SetupView,
    response: json::JsonView,
) -> Result<SetupStepView, error::ErrorView> {
    match stage {
        CommandStage::Negotiate => if response.nested("data"@, "protocolVersion"@) == Some(
            json::JsonView::Unsigned(2),
        ) {
            Ok(
                spec_issue(
                    if data.resume is Some {
                        CommandStage::SwitchSession
                    } else {
                        CommandStage::HostTools
                    },
                    data,
                ),
            )
        } else {
            Err(error::protocol_fault("OMP v2 negotiation returned the wrong version"@))
        },
        CommandStage::SwitchSession => Ok(spec_issue(CommandStage::HostTools, data)),
        CommandStage::HostTools => Ok(spec_issue(CommandStage::UriSchemes, data)),
        CommandStage::UriSchemes => Ok(spec_issue(CommandStage::Subagents, data)),
        CommandStage::Subagents => Ok(spec_issue(CommandStage::SteeringMode, data)),
        CommandStage::SteeringMode => Ok(spec_issue(CommandStage::FollowUpMode, data)),
        CommandStage::FollowUpMode => Ok(spec_issue(CommandStage::InterruptMode, data)),
        CommandStage::InterruptMode => Ok(spec_issue(CommandStage::StartState, data)),
        CommandStage::StartState => match response.get("data"@) {
            None => Err(error::protocol_fault("OMP get_state response omitted data"@)),
            Some(state) => spec_choose_model(profile, SetupView { state, ..data }),
        },
        CommandStage::AvailableModels => if lists_model(response, data.desired) {
            Ok(spec_issue(CommandStage::SelectModel, data))
        } else {
            Err(
                error::protocol_fault(
                    "requested OMP provider/model is unavailable in the pinned runtime"@,
                ),
            )
        },
        CommandStage::SelectModel => Ok(spec_issue(CommandStage::ModelState, data)),
        CommandStage::ModelState => match response.get("data"@) {
            None => Err(error::protocol_fault("OMP get_state response omitted data"@)),
            Some(state) => spec_confirm(profile, SetupView { state, ..data }),
        },
    }
}

/// The state that the runtime is known to be in once a command was answered: the one in the
/// response, if the command asks for it and the response has it, and the one before otherwise. It
/// is taken before anything is checked of it.
pub open spec fn spec_state_read(
    stage: CommandStage,
    data: SetupView,
    response: json::JsonView,
) -> json::JsonView {
    if stage == CommandStage::StartState || stage == CommandStage::ModelState {
        match response.get("data"@) {
            Some(state) => state,
            None => data.state,
        }
    } else {
        data.state
    }
}

/// What follows once it is known where the session file leads.
pub open spec fn spec_after_look(
    profile: ProfileView,
    stage: LookStage,
    path: Seq<char>,
    data: SetupView,
    seen: SeenView,
) -> Result<SetupStepView, error::ErrorView> {
    match profile::spec_contained_path(profile.session_root, path, seen) {
        Err(e) => Err(e),
        Ok(place) => match stage {
            LookStage::Model => if data.starting {
                spec_look(profile, data, LookStage::Startup)
            } else {
                Ok(SetupStepView::Ready { state: data.state })
            },
            LookStage::Startup => match spec_check_resumed(data) {
                Err(e) => Err(e),
                Ok(_) => spec_persist(profile, data),
            },
            LookStage::Record => match data.state.text("sessionId"@) {
                None => Err(error::protocol_fault("OMP state omitted sessionId"@)),
                Some(session_id) => Ok(
                    SetupStepView::Save {
                        mapping: persistence::spec_new_mapping(data.thread_id, session_id, place),
                        state: data.state,
                    },
                ),
            },
        },
    }
}

impl AwaitResponse {
    /// Takes the response to the command.
    pub fn answered(self, profile: &OmpProfile, response: &Json) -> (r: Result<
        SetupStep,
        SetupFailure,
    >)
        ensures
            proceeds(
                r,
                spec_after_response(profile@, self.stage, self.data@, response@),
                spec_state_read(self.stage, self.data@, response@),
            ),
    {
        let data = self.data;
        match self.stage {
            CommandStage::Negotiate => {
                let agreed = match response.nested("data", "protocolVersion") {
                    Some(Json::Unsigned(version)) => *version == 2,
                    _ => false,
                };
                if !agreed {
                    return data.failed(
                        protocol_error("OMP v2 negotiation returned the wrong version"),
                    );
                }
                if data.resume.is_some() {
                    Ok(issue(CommandStage::SwitchSession, data))
                } else {
                    Ok(issue(CommandStage::HostTools, data))
                }
            },
            CommandStage::SwitchSession => Ok(issue(CommandStage::HostTools, data)),
            CommandStage::HostTools => Ok(issue(CommandStage::UriSchemes, data)),
            CommandStage::UriSchemes => Ok(issue(CommandStage::Subagents, data)),
            CommandStage::Subagents => Ok(issue(CommandStage::SteeringMode, data)),
            CommandStage::SteeringMode => Ok(issue(CommandStage::FollowUpMode, data)),
            CommandStage::FollowUpMode => Ok(issue(CommandStage::InterruptMode, data)),
            CommandStage::InterruptMode => Ok(issue(CommandStage::StartState, data)),
            CommandStage::StartState => match response.get("data") {
                None => data.failed(protocol_error("OMP get_state response omitted data")),
                Some(state) => {
                    let data = SetupData { state: state.duplicate(), ..data };
                    choose_model(profile, data)
                },
            },
            CommandStage::AvailableModels => {
                if !check_lists_model(
                    response,
                    data.desired_provider.as_str(),
                    data.desired_model.as_str(),
                ) {
                    return data.failed(
                        protocol_error(
                            "requested OMP provider/model is unavailable in the pinned runtime",
                        ),
                    );
                }
                Ok(issue(CommandStage::SelectModel, data))
            },
            CommandStage::SelectModel => Ok(issue(CommandStage::ModelState, data)),
            CommandStage::ModelState => match response.get("data") {
                None => data.failed(protocol_error("OMP get_state response omitted data")),
                Some(state) => {
                    let data = SetupData { state: state.duplicate(), ..data };
                    confirm(profile, data)
                },
            },
        }
    }
}

impl AwaitLook {
    /// Takes where the session file leads.
    pub fn looked(self, profile: &OmpProfile, seen: &PathSeen) -> (r: Result<
        SetupStep,
        SetupFailure,
    >)
        ensures
            proceeds(
                r,
                spec_after_look(profile@, self.stage, self.path@, self.data@, seen@),
                self.data@.state,
            ),
    {
        let place = match validate_contained_session_path(
            profile.session_root(),
            self.path.as_str(),
            seen,
        ) {
            Ok(place) => place,
            Err(e) => {
                return self.data.failed(e);
            },
        };
        let data = self.data;
        match self.stage {
            LookStage::Model => {
                if data.starting {
                    look(profile, data, LookStage::Startup)
                } else {
                    Ok(SetupStep::Ready { state: data.state })
                }
            },
            LookStage::Startup => match check_resumed(&data) {
                Err(e) => data.failed(e),
                Ok(_) => persist_mapping(profile, data),
            },
            LookStage::Record => {
                let session_id = match data.state.text("sessionId") {
                    Some(id) => id.to_owned(),
                    None => {
                        return data.failed(protocol_error("OMP state omitted sessionId"));
                    },
                };
                let mapping = SessionMapping::new(data.thread_id.as_str(), session_id, place);
                Ok(SetupStep::Save { mapping, save: AwaitSave { state: data.state } })
            },
        }
    }
}

impl AwaitSave {
    /// Takes the report that the session was recorded: it is ready, with this state.
    pub fn saved(self) -> (state: Json)
        ensures
            state@ == self.state@,
    {
        self.state
    }
}

// ---------------------------------------------------------------------------
// What holds of every setup
// ---------------------------------------------------------------------------

/// Whether the desired model of a setup is one that the operator allows, and the one that was asked
/// for where one was.
pub open spec fn chosen(profile: ProfileView, data: SetupView) -> bool {
    &&& profile.allowed_models.contains(data.desired)
    &&& spec_requested_pair(data.requested.0, data.requested.1) matches Ok(requested) && (
    requested matches Some(pair) ==> pair == data.desired)
}

/// Whether the state of a setup is that of the profile, with the desired model.
pub open spec fn conforming(profile: ProfileView, data: SetupView) -> bool {
    &&& chosen(profile, data)
    &&& session::spec_state_model(data.state) == Ok::<(Seq<char>, Seq<char>), error::ErrorView>(
        data.desired,
    )
    &&& profile::spec_check_state(data.state) is Ok
}

/// What has been made sure of when a step is reached.
pub open spec fn sound(profile: ProfileView, step: SetupStepView) -> bool {
    match step {
        SetupStepView::Command { name, fields, version_two, stage, data } => match stage {
            CommandStage::AvailableModels => chosen(profile, data),
            CommandStage::SelectModel => chosen(profile, data),
            CommandStage::ModelState => chosen(profile, data),
            _ => true,
        },
        SetupStepView::Look { path, occasion, data } => {
            &&& conforming(profile, data)
            &&& profile::spec_check_state(data.state) == Ok::<Seq<char>, error::ErrorView>(path)
            &&& occasion == LookStage::Record ==> spec_check_resumed(data) is Ok
        },
        SetupStepView::Save { mapping, state } => {
            &&& profile::spec_check_state(state) is Ok
            &&& session::spec_state_model(state) matches Ok(model)
                && profile.allowed_models.contains(model)
        },
        SetupStepView::Ready { state } => {
            &&& profile::spec_check_state(state) is Ok
            &&& session::spec_state_model(state) matches Ok(model)
                && profile.allowed_models.contains(model)
        },
    }
}

/// A state that passes has its session file where it says.
proof fn lemma_state_file(state: json::JsonView)
    ensures
        profile::spec_check_state(state) matches Ok(file) ==> state.text("sessionFile"@) == Some(
            file,
        ),
{
}

proof fn lemma_choose_model_sound(profile: ProfileView, data: SetupView)
    ensures
        spec_choose_model(profile, data) matches Ok(step) ==> sound(profile, step),
{
}

/// From the first step on, whatever the runtime answers and wherever its session file leads, every
/// step that is reached is sound. So a session becomes ready, or is recorded, only with the queue
/// modes and the tools of the profile and a model that the operator allows.
pub proof fn law_every_step_is_sound(
    profile: ProfileView,
    data: SetupView,
    versions: Seq<u64>,
    stage: CommandStage,
    response: json::JsonView,
    occasion: LookStage,
    path: Seq<char>,
    seen: SeenView,
)
    ensures
        spec_initialize(data, versions) matches Ok(step) ==> sound(profile, step),
        spec_choose_model(profile, data) matches Ok(step) ==> sound(profile, step),
        sound(profile, spec_issue(stage, data)) ==> (spec_after_response(
            profile,
            stage,
            data,
            response,
        ) matches Ok(step) ==> sound(profile, step)),
        sound(profile, SetupStepView::Look { path, occasion, data }) ==> (spec_after_look(
            profile,
            occasion,
            path,
            data,
            seen,
        ) matches Ok(step) ==> sound(profile, step)),
{
    lemma_choose_model_sound(profile, data);
    if stage == CommandStage::StartState && response.get("data"@) is Some {
        lemma_choose_model_sound(
            profile,
            SetupView { state: response.get("data"@)->Some_0, ..data },
        );
    }
    lemma_state_file(data.state);
}

/// A running session whose model is ensured has the model that was asked for, and its session file
/// lies below the session directory.
pub proof fn law_ensured_model_is_effective(
    profile: ProfileView,
    path: Seq<char>,
    data: SetupView,
    seen: SeenView,
    state: json::JsonView,
)
    requires
        sound(profile, SetupStepView::Look { path, occasion: LookStage::Model, data }),
        spec_after_look(profile, LookStage::Model, path, data, seen) == Ok::<
            SetupStepView,
            error::ErrorView,
        >(SetupStepView::Ready { state }),
    ensures
        session::spec_state_model(state) matches Ok(effective) && {
            &&& profile.allowed_models.contains(effective)
            &&& spec_requested_pair(data.requested.0, data.requested.1) matches Ok(requested) && (
            requested matches Some(pair) ==> effective == pair)
        },
        profile::spec_verify_state(profile, state, seen) is Ok,
{
}

/// A resumed session is recorded only if the runtime is in the session that the thread was mapped
/// to; and what is recorded is the thread, that session, and where its file leads.
pub proof fn law_recorded_session_is_the_resumed_one(
    profile: ProfileView,
    path: Seq<char>,
    data: SetupView,
    seen: SeenView,
    mapping: MappingView,
    state: json::JsonView,
)
    requires
        sound(profile, SetupStepView::Look { path, occasion: LookStage::Record, data }),
        spec_after_look(profile, LookStage::Record, path, data, seen) == Ok::<
            SetupStepView,
            error::ErrorView,
        >(SetupStepView::Save { mapping, state }),
    ensures
        mapping.thread_id == data.thread_id,
        profile::spec_contained_path(profile.session_root, path, seen) == Ok::<
            Seq<char>,
            error::ErrorView,
        >(mapping.session_file),
        state.text("sessionId"@) == Some(mapping.session_id),
        data.resume matches Some((session_id, session_file)) ==> mapping.session_id == session_id
            && path::spec_components(path) == path::spec_components(session_file),
{
    lemma_state_file(data.state);
}

/// Nothing is sent before the second version of the protocol is negotiated, and everything after it
/// is read by that version's rules.
pub proof fn law_negotiation_comes_first(
    profile: ProfileView,
    data: SetupView,
    versions: Seq<u64>,
    stage: CommandStage,
    response: json::JsonView,
)
    ensures
        spec_initialize(data, versions) matches Ok(step) ==> versions.contains(2) && step
            == spec_issue(CommandStage::Negotiate, data),
        spec_after_response(profile, CommandStage::Negotiate, data, response) is Ok ==>
            response.nested("data"@, "protocolVersion"@) == Some(json::JsonView::Unsigned(2)),
        spec_after_response(profile, stage, data, response) matches Ok(SetupStepView::Command {
            name,
            fields,
            version_two,
            stage: next,
            data: kept,
        }) ==> version_two && next != CommandStage::Negotiate,
{
}

/// How far a command of the start is from the one that asks for the state.
pub open spec fn start_distance(stage: CommandStage) -> nat {
    match stage {
        CommandStage::Negotiate => 8,
        CommandStage::SwitchSession => 7,
        CommandStage::HostTools => 6,
        CommandStage::UriSchemes => 5,
        CommandStage::Subagents => 4,
        CommandStage::SteeringMode => 3,
        CommandStage::FollowUpMode => 2,
        CommandStage::InterruptMode => 1,
        _ => 0,
    }
}

/// The start goes through its commands in order and leaves none out: host tools, host URIs and
/// subagents are switched off and the queue modes set before the state is asked for, and a session
/// is switched to just when one is resumed.
pub proof fn law_start_leaves_no_command_out(
    profile: ProfileView,
    data: SetupView,
    stage: CommandStage,
    response: json::JsonView,
)
    requires
        start_distance(stage) > 0,
    ensures
        spec_after_response(profile, stage, data, response) matches Ok(step) ==> {
            &&& step matches SetupStepView::Command {
                name,
                fields,
                version_two,
                stage: next,
                data: kept,
            } && kept == data && if stage == CommandStage::Negotiate && data.resume is None {
                next == CommandStage::HostTools
            } else {
                start_distance(next) == start_distance(stage) - 1
            }
        },
{
}

/// The state that goes along with a step.
pub open spec fn step_state(step: SetupStepView) -> json::JsonView {
    match step {
        SetupStepView::Command { name, fields, version_two, stage, data } => data.state,
        SetupStepView::Look { path, occasion, data } => data.state,
        SetupStepView::Save { mapping, state } => state,
        SetupStepView::Ready { state } => state,
    }
}

/// A setup goes on with the state that the runtime gave last, and ends with it.
pub proof fn law_setup_keeps_the_state_read(
    profile: ProfileView,
    data: SetupView,
    stage: CommandStage,
    response: json::JsonView,
    occasion: LookStage,
    path: Seq<char>,
    seen: SeenView,
)
    ensures
        spec_choose_model(profile, data) matches Ok(step) ==> step_state(step) == data.state,
        spec_after_response(profile, stage, data, response) matches Ok(step) ==> step_state(step)
            == spec_state_read(stage, data, response),
        spec_after_look(profile, occasion, path, data, seen) matches Ok(step) ==> step_state(step)
            == data.state,
{
}

} // verus!
