//! What each step of a setup asks for and what it needs, said of the responses and states themselves.

use vstd::prelude::*;

use crate::error;
use crate::error::HarnessServerError;
use crate::json;
use crate::json::{Json, JsonView};
use crate::path;
use crate::persistence::{MappingView, SessionMapping};
use crate::profile;
use crate::profile::{OmpProfile, ProfileView, SeenView};
use crate::session;
use crate::setup;
use crate::setup::{CommandStage, LookStage, SetupFailure, SetupStep, SetupStepView, SetupView};
use crate::text;

verus! {

/// Whether a document names a provider and a model as one of a list of models does.
pub open spec fn names_model(document: JsonView, provider: Seq<char>, model: Seq<char>) -> bool {
    &&& document.get("provider"@) == Some(JsonView::Text(provider))
    &&& document.get("id"@) == Some(JsonView::Text(model))
}

/// Whether a step writes a command with a name and as many fields.
pub open spec fn writes(
    step: Result<SetupStepView, error::ErrorView>,
    name: Seq<char>,
    count: nat,
    stage: CommandStage,
    data: SetupView,
) -> bool {
    &&& step matches Ok(SetupStepView::Command {
        name: written,
        fields,
        version_two,
        stage: awaited,
        data: kept,
    })
    &&& written == name
    &&& fields.len() == count
    &&& version_two == (name != "negotiate_protocol"@)
    &&& awaited == stage
    &&& kept == data
}

/// What a step that writes a command says under the name of a field.
pub open spec fn said(step: Result<SetupStepView, error::ErrorView>, name: Seq<char>) -> Option<
    JsonView,
> {
    match step {
        Ok(SetupStepView::Command { name: _, fields, version_two, stage, data }) => json::lookup(
            fields,
            name,
        ),
        _ => None,
    }
}

proof fn lemma_two_fields(
    fields: Seq<(Seq<char>, JsonView)>,
    first: Seq<char>,
    second: Seq<char>,
    a: JsonView,
    b: JsonView,
)
    requires
        fields == seq![(first, a), (second, b)],
        first != second,
    ensures
        json::lookup(fields, first) == Some(a),
        json::lookup(fields, second) == Some(b),
{
    reveal_with_fuel(json::lookup, 3);
    assert(fields.skip(1)[0] == fields[1]);
}

proof fn lemma_command_names()
    ensures
        "switch_session"@ != "negotiate_protocol"@,
        "set_host_tools"@ != "negotiate_protocol"@,
        "set_host_uri_schemes"@ != "negotiate_protocol"@,
        "set_subagent_subscription"@ != "negotiate_protocol"@,
        "set_steering_mode"@ != "negotiate_protocol"@,
        "set_follow_up_mode"@ != "negotiate_protocol"@,
        "set_interrupt_mode"@ != "negotiate_protocol"@,
        "get_state"@ != "negotiate_protocol"@,
        "get_available_models"@ != "negotiate_protocol"@,
        "set_model"@ != "negotiate_protocol"@,
{
    reveal_strlit("negotiate_protocol");
    reveal_strlit("switch_session");
    reveal_strlit("set_host_tools");
    reveal_strlit("set_host_uri_schemes");
    reveal_strlit("set_subagent_subscription");
    reveal_strlit("set_steering_mode");
    reveal_strlit("set_follow_up_mode");
    reveal_strlit("set_interrupt_mode");
    reveal_strlit("get_state");
    reveal_strlit("get_available_models");
    reveal_strlit("set_model");
    assert("negotiate_protocol"@[0] == 'n');
    assert("switch_session"@[0] == 's');
    assert("set_host_tools"@[0] == 's');
    assert("set_host_uri_schemes"@[0] == 's');
    assert("set_subagent_subscription"@[0] == 's');
    assert("set_steering_mode"@[0] == 's');
    assert("set_follow_up_mode"@[0] == 's');
    assert("set_interrupt_mode"@[0] == 's');
    assert("get_state"@[0] == 'g');
    assert("get_available_models"@[0] == 'g');
    assert("set_model"@[0] == 's');
}

/// Where the list of available models names the desired one, at whatever place, that model is
/// selected next, by its provider and its name.
pub proof fn law_a_listed_model_is_selected(
    profile: ProfileView,
    data: SetupView,
    response: JsonView,
    body: JsonView,
    models: Seq<JsonView>,
    i: int,
)
    requires
        response.get("data"@) == Some(body),
        body.get("models"@) == Some(JsonView::List(models)),
        0 <= i < models.len(),
        names_model(models[i], data.desired.0, data.desired.1),
    ensures
        ({
            let step = setup::spec_after_response(
                profile,
                CommandStage::AvailableModels,
                data,
                response,
            );
            &&& writes(step, "set_model"@, 2, CommandStage::SelectModel, data)
            &&& said(step, "provider"@) == Some(JsonView::Text(data.desired.0))
            &&& said(step, "modelId"@) == Some(JsonView::Text(data.desired.1))
        }),
{
    assert(setup::is_desired(models[i], data.desired));
    lemma_command_names();
    reveal_strlit("provider");
    reveal_strlit("modelId");
    assert("provider"@.len() == 8);
    assert("modelId"@.len() == 7);
    lemma_two_fields(
        setup::stage_fields(CommandStage::SelectModel, data),
        "provider"@,
        "modelId"@,
        JsonView::Text(data.desired.0),
        JsonView::Text(data.desired.1),
    );
}

/// Where no entry of the list names the desired model, or there is no list, the setup fails.
pub proof fn law_an_unlisted_model_fails(
    profile: ProfileView,
    data: SetupView,
    response: JsonView,
)
    requires
        response.get("data"@) matches Some(body) ==> (body.get("models"@) matches Some(
            JsonView::List(models),
        ) ==> forall|i: int|
            0 <= i < models.len() ==> !names_model(
                #[trigger] models[i],
                data.desired.0,
                data.desired.1,
            )),
    ensures
        setup::spec_after_response(profile, CommandStage::AvailableModels, data, response) == Err::<
            SetupStepView,
            error::ErrorView,
        >(
            error::protocol_fault(
                "requested OMP provider/model is unavailable in the pinned runtime"@,
            ),
        ),
{
    if let Some(JsonView::List(models)) = response.nested("data"@, "models"@) {
        assert forall|i: int| 0 <= i < models.len() implies !setup::is_desired(
            #[trigger] models[i],
            data.desired,
        ) by {
            assert(!names_model(models[i], data.desired.0, data.desired.1));
        }
    }
}

/// After the model is selected, the state is read again to confirm it.
pub proof fn law_a_selected_model_is_confirmed(
    profile: ProfileView,
    data: SetupView,
    response: JsonView,
)
    ensures
        writes(
            setup::spec_after_response(profile, CommandStage::SelectModel, data, response),
            "get_state"@,
            0,
            CommandStage::ModelState,
            data,
        ),
{
    lemma_command_names();
}

// ---------------------------------------------------------------------------
// Which model is wanted
// ---------------------------------------------------------------------------

/// A request that names a provider and a model asks for them; one that names neither asks for
/// nothing; a provider alone is refused.
pub proof fn law_requested_model(provider: Seq<char>, model: Seq<char>)
    ensures
        ({
            let asked = setup::spec_requested_pair(provider, model);
            &&& provider.len() > 0 && model.len() > 0 ==> asked == Ok::<
                Option<(Seq<char>, Seq<char>)>,
                error::ErrorView,
            >(Some((provider, model)))
            &&& provider.len() == 0 && model.len() == 0 ==> asked == Ok::<
                Option<(Seq<char>, Seq<char>)>,
                error::ErrorView,
            >(None)
            &&& provider.len() > 0 && model.len() == 0 ==> asked == Err::<
                Option<(Seq<char>, Seq<char>)>,
                error::ErrorView,
            >(error::protocol_fault("OMP provider and model must be selected together"@))
        }),
{
}

/// A request for `provider/model` in one text asks for that provider and that model, cut at the first
/// slash.
pub proof fn law_requested_model_in_one_text(provider: Seq<char>, model: Seq<char>)
    requires
        provider.len() > 0,
        !provider.contains('/'),
        model.len() > 0,
    ensures
        setup::spec_requested_pair(Seq::empty(), provider + seq!['/'] + model) == Ok::<
            Option<(Seq<char>, Seq<char>)>,
            error::ErrorView,
        >(Some((provider, model))),
{
    let whole = provider + seq!['/'] + model;
    let at = provider.len() as int;
    assert(whole[at] == '/');
    assert forall|j: int| 0 <= j < at implies whole[j] != '/' by {
        assert(provider.contains(provider[j]));
        assert(whole[j] == provider[j]);
    }
    text::lemma_find_at(whole, '/', at);
    assert(whole.take(at) =~= provider);
    assert(whole.skip(at + 1) =~= model);
}

/// A request in one text without a slash, or with nothing on one side of the first, is refused.
pub proof fn law_requested_model_needs_both_parts(model: Seq<char>)
    requires
        model.len() > 0,
        !model.contains('/') || model[0] == '/' || (model.last() == '/' && forall|j: int|
            0 <= j < model.len() - 1 ==> model[j] != '/'),
    ensures
        setup::spec_requested_pair(Seq::empty(), model) == Err::<
            Option<(Seq<char>, Seq<char>)>,
            error::ErrorView,
        >(
            error::protocol_fault(
                "OMP model overrides without a provider must use provider/model"@,
            ),
        ),
{
    if model.contains('/') {
        if model[0] == '/' {
            text::lemma_find_at(model, '/', 0);
        } else {
            text::lemma_find_at(model, '/', model.len() - 1);
        }
    }
}

/// The model of a state is the provider and the name that it gives of its model, neither of them
/// empty; a state that leaves one out has none.
pub proof fn law_model_of_a_state(state: JsonView, provider: Seq<char>, model: Seq<char>)
    ensures
        session::spec_state_model(state) == Ok::<(Seq<char>, Seq<char>), error::ErrorView>(
            (provider, model),
        ) <==> provider.len() > 0 && model.len() > 0 && (state.get("model"@) matches Some(entry)
            && names_model(entry, provider, model)),
{
}

/// A state without a provider of its model is refused as such, and so is one without its name.
pub proof fn law_states_without_a_model(state: JsonView)
    ensures
        ({
            let provider = state.get("model"@) matches Some(entry) && (entry.get("provider"@)
                matches Some(JsonView::Text(named)) && named.len() > 0);
            let id = state.get("model"@) matches Some(entry) && (entry.get("id"@) matches Some(
                JsonView::Text(named),
            ) && named.len() > 0);
            &&& !provider ==> session::spec_state_model(state) == Err::<
                (Seq<char>, Seq<char>),
                error::ErrorView,
            >(error::protocol_fault("OMP state omitted effective model provider"@))
            &&& provider && !id ==> session::spec_state_model(state) == Err::<
                (Seq<char>, Seq<char>),
                error::ErrorView,
            >(error::protocol_fault("OMP state omitted effective model id"@))
        }),
{
}

/// Before a turn of a running session the model is chosen in the same way from the state that is
/// known: a request that cannot be read or a state without a model fails; a desired model that is
/// not allowed fails; one that is not in effect is looked for; and one that is needs only the look
/// at the session file.
pub proof fn law_a_running_session_chooses_the_model(profile: ProfileView, data: SetupView)
    ensures
        ({
            let step = setup::spec_choose_model(profile, data);
            match (
                setup::spec_requested_pair(data.requested.0, data.requested.1),
                session::spec_state_model(data.state),
            ) {
                (Err(e), _) => step == Err::<SetupStepView, error::ErrorView>(e),
                (Ok(_), Err(e)) => step == Err::<SetupStepView, error::ErrorView>(e),
                (Ok(asked), Ok(observed)) => {
                    let desired = match asked {
                        Some(pair) => pair,
                        None => observed,
                    };
                    &&& !profile.allowed_models.contains(desired) ==> step is Err
                    &&& profile.allowed_models.contains(desired) && desired != observed ==> writes(
                        step,
                        "get_available_models"@,
                        0,
                        CommandStage::AvailableModels,
                        SetupView { desired, ..data },
                    )
                    &&& profile.allowed_models.contains(desired) && desired == observed ==> step
                        == setup::spec_look(
                        profile,
                        SetupView { desired, ..data },
                        LookStage::Model,
                    )
                },
            }
        }),
{
    lemma_command_names();
}

/// A setup starts from what it is given: a start from the request and the session that is resumed,
/// and before any state; a running session from the request and its state.
pub proof fn law_what_a_setup_starts_from(
    thread_id: Seq<char>,
    requested: (Seq<char>, Seq<char>),
    resume: Option<(Seq<char>, Seq<char>)>,
    state: JsonView,
)
    ensures
        ({
            let start = setup::starting_data(thread_id, requested, resume);
            &&& start.thread_id == thread_id && start.requested == requested
            &&& start.resume == resume && start.starting && start.state == JsonView::Null
        }),
        ({
            let running = setup::running_data(thread_id, requested, state);
            &&& running.thread_id == thread_id && running.requested == requested
            &&& running.resume is None && !running.starting && running.state == state
        }),
{
}

/// A response without a state where one is read fails the setup.
pub proof fn law_a_state_must_be_given(
    profile: ProfileView,
    data: SetupView,
    response: JsonView,
)
    requires
        response.get("data"@) is None,
    ensures
        setup::spec_after_response(profile, CommandStage::StartState, data, response) == Err::<
            SetupStepView,
            error::ErrorView,
        >(error::protocol_fault("OMP get_state response omitted data"@)),
        setup::spec_after_response(profile, CommandStage::ModelState, data, response) == Err::<
            SetupStepView,
            error::ErrorView,
        >(error::protocol_fault("OMP get_state response omitted data"@)),
{
}

/// The state that a start reads decides what comes next. Without a request the model in effect is
/// the desired one. A desired model that is not allowed fails the setup; one that is allowed and not
/// in effect is looked for among the available ones.
pub proof fn law_start_chooses_the_model(
    profile: ProfileView,
    data: SetupView,
    response: JsonView,
    state: JsonView,
    observed: (Seq<char>, Seq<char>),
    asked: Option<(Seq<char>, Seq<char>)>,
)
    requires
        response.get("data"@) == Some(state),
        session::spec_state_model(state) == Ok::<(Seq<char>, Seq<char>), error::ErrorView>(
            observed,
        ),
        setup::spec_requested_pair(data.requested.0, data.requested.1) == Ok::<
            Option<(Seq<char>, Seq<char>)>,
            error::ErrorView,
        >(asked),
    ensures
        ({
            let desired = match asked {
                Some(pair) => pair,
                None => observed,
            };
            let step = setup::spec_after_response(
                profile,
                CommandStage::StartState,
                data,
                response,
            );
            &&& !profile.allowed_models.contains(desired) ==> step == Err::<
                SetupStepView,
                error::ErrorView,
            >(
                error::protocol_fault(
                    "OMP provider/model "@ + desired.0 + "/"@ + desired.1
                        + " is not in the operator allowlist"@,
                ),
            )
            &&& profile.allowed_models.contains(desired) && desired != observed ==> writes(
                step,
                "get_available_models"@,
                0,
                CommandStage::AvailableModels,
                SetupView { state, desired, ..data },
            )
            &&& profile.allowed_models.contains(desired) && desired == observed ==> step
                == setup::spec_look(
                profile,
                SetupView { state, desired, ..data },
                LookStage::Model,
            )
        }),
{
    lemma_command_names();
}

/// The state that is read after a model was selected confirms it just if it gives that model in
/// effect.
pub proof fn law_the_selected_model_must_be_in_effect(
    profile: ProfileView,
    data: SetupView,
    response: JsonView,
    state: JsonView,
    effective: (Seq<char>, Seq<char>),
)
    requires
        response.get("data"@) == Some(state),
        session::spec_state_model(state) == Ok::<(Seq<char>, Seq<char>), error::ErrorView>(
            effective,
        ),
        profile.allowed_models.contains(data.desired),
    ensures
        ({
            let step = setup::spec_after_response(
                profile,
                CommandStage::ModelState,
                data,
                response,
            );
            if effective == data.desired {
                step == setup::spec_look(profile, SetupView { state, ..data }, LookStage::Model)
            } else {
                step == Err::<SetupStepView, error::ErrorView>(
                    error::protocol_fault(
                        "OMP effective provider/model differs from the selected allowlisted model"@,
                    ),
                )
            }
        }),
{
}

/// A state that conforms and whose session file lies where it may is looked at next, under the path
/// that the state gives.
pub proof fn law_a_conforming_state_is_looked_at(
    profile: ProfileView,
    data: SetupView,
    stage: LookStage,
    file: Seq<char>,
)
    requires
        profile::spec_check_state(data.state) == Ok::<Seq<char>, error::ErrorView>(file),
        profile::spec_check_session_path(profile.session_root, file) is Ok,
    ensures
        setup::spec_look(profile, data, stage) == Ok::<SetupStepView, error::ErrorView>(
            SetupStepView::Look { path: file, occasion: stage, data },
        ),
        data.state.get("sessionFile"@) == Some(JsonView::Text(file)),
{
}

/// A state that does not conform, or whose session file may not lie where it does, fails the setup
/// with what is wrong with it.
pub proof fn law_another_state_is_not_looked_at(
    profile: ProfileView,
    data: SetupView,
    stage: LookStage,
)
    ensures
        profile::spec_check_state(data.state) matches Err(e) ==> setup::spec_look(
            profile,
            data,
            stage,
        ) == Err::<SetupStepView, error::ErrorView>(e),
        profile::spec_check_state(data.state) matches Ok(file) ==> (
        profile::spec_check_session_path(profile.session_root, file) matches Err(e)
            ==> setup::spec_look(profile, data, stage) == Err::<SetupStepView, error::ErrorView>(
            e,
        )),
{
}

/// A start hands on the thread, the request, and the session that the mapping gives, the identifier
/// and the file each as it is.
pub proof fn law_a_start_resumes_the_mapped_session(
    thread_id: &str,
    provider: &str,
    model: &str,
    mapping: Option<&SessionMapping>,
    versions: Vec<u64>,
    r: Result<SetupStep, HarnessServerError>,
)
    requires
        call_ensures(setup::initialize, (thread_id, provider, model, mapping, &versions), r),
    ensures
        r is Ok <==> versions@.contains(2),
        r matches Ok(step) ==> (step@ matches SetupStepView::Command {
            name,
            fields,
            version_two,
            stage,
            data,
        } && {
            &&& name == "negotiate_protocol"@
            &&& data.thread_id == thread_id@
            &&& data.requested == (provider@, model@)
            &&& data.starting
            &&& mapping is None ==> data.resume is None
            &&& mapping matches Some(given) ==> data.resume == Some(
                (given.session_id@, given.session_file@),
            )
        }),
{
}

/// A check before a turn goes by the state that it is given, and a failure hands that state back.
pub proof fn law_a_check_goes_by_the_given_state(
    profile: OmpProfile,
    thread_id: &str,
    state: Json,
    provider: &str,
    model: &str,
    r: Result<SetupStep, SetupFailure>,
)
    requires
        call_ensures(setup::ensure_model, (&profile, thread_id, &state, provider, model), r),
    ensures
        r matches Err(failure) ==> failure.state@ == state@,
        r matches Ok(step) ==> (step@ matches SetupStepView::Command {
            name,
            fields,
            version_two,
            stage,
            data,
        } ==> name == "get_available_models"@ && data.state == state@ && data.requested == (
            provider@,
            model@,
        ) && data.thread_id == thread_id@ && !data.starting),
        r matches Ok(step) ==> (step@ matches SetupStepView::Look { path, occasion, data }
            ==> data.state == state@ && !data.starting && state@.get("sessionFile"@) == Some(
            JsonView::Text(path),
        )),
{
}

// ---------------------------------------------------------------------------
// The order of a start
// ---------------------------------------------------------------------------

/// A start begins with the negotiation of version 2, and only if the runtime offers it.
pub proof fn law_start_offers_version_two(data: SetupView, versions: Seq<u64>)
    ensures
        ({
            let step = setup::spec_initialize(data, versions);
            if exists|i: int| 0 <= i < versions.len() && versions[i] == 2 {
                &&& writes(step, "negotiate_protocol"@, 1, CommandStage::Negotiate, data)
                &&& said(step, "protocolVersion"@) == Some(JsonView::Unsigned(2))
            } else {
                step == Err::<SetupStepView, error::ErrorView>(
                    error::protocol_fault("centaur-safe requires OMP protocol v2"@),
                )
            }
        }),
{
    assert(versions.contains(2) == exists|i: int| 0 <= i < versions.len() && versions[i] == 2);
    reveal_with_fuel(json::lookup, 2);
}

/// Once version 2 is agreed, the session that is resumed is switched to, where there is one;
/// another version fails the setup.
pub proof fn law_negotiation_leads_to_the_session(
    profile: ProfileView,
    data: SetupView,
    response: JsonView,
)
    ensures
        ({
            let step = setup::spec_after_response(
                profile,
                CommandStage::Negotiate,
                data,
                response,
            );
            let agreed = response.get("data"@) matches Some(body) && body.get("protocolVersion"@)
                == Some(JsonView::Unsigned(2));
            if !agreed {
                step == Err::<SetupStepView, error::ErrorView>(
                    error::protocol_fault("OMP v2 negotiation returned the wrong version"@),
                )
            } else {
                match data.resume {
                    Some((id, file)) => {
                        &&& writes(step, "switch_session"@, 1, CommandStage::SwitchSession, data)
                        &&& said(step, "sessionPath"@) == Some(JsonView::Text(file))
                    },
                    None => {
                        &&& writes(step, "set_host_tools"@, 1, CommandStage::HostTools, data)
                        &&& said(step, "tools"@) == Some(JsonView::List(Seq::empty()))
                    },
                }
            }
        }),
{
    lemma_command_names();
    reveal_with_fuel(json::lookup, 2);
}

/// Then the host offers no tools and no URI schemes, subagents are not reported, messages are taken
/// one at a time, an interrupt is immediate, and the state is read: in this order.
pub proof fn law_start_turns_everything_off(
    profile: ProfileView,
    data: SetupView,
    response: JsonView,
)
    ensures
        ({
            let step = setup::spec_after_response(
                profile,
                CommandStage::SwitchSession,
                data,
                response,
            );
            &&& writes(step, "set_host_tools"@, 1, CommandStage::HostTools, data)
            &&& said(step, "tools"@) == Some(JsonView::List(Seq::empty()))
        }),
        ({
            let step = setup::spec_after_response(
                profile,
                CommandStage::HostTools,
                data,
                response,
            );
            &&& writes(step, "set_host_uri_schemes"@, 1, CommandStage::UriSchemes, data)
            &&& said(step, "schemes"@) == Some(JsonView::List(Seq::empty()))
        }),
        ({
            let step = setup::spec_after_response(
                profile,
                CommandStage::UriSchemes,
                data,
                response,
            );
            &&& writes(step, "set_subagent_subscription"@, 1, CommandStage::Subagents, data)
            &&& said(step, "level"@) == Some(JsonView::Text("off"@))
        }),
        ({
            let step = setup::spec_after_response(
                profile,
                CommandStage::Subagents,
                data,
                response,
            );
            &&& writes(step, "set_steering_mode"@, 1, CommandStage::SteeringMode, data)
            &&& said(step, "mode"@) == Some(JsonView::Text("one-at-a-time"@))
        }),
        ({
            let step = setup::spec_after_response(
                profile,
                CommandStage::SteeringMode,
                data,
                response,
            );
            &&& writes(step, "set_follow_up_mode"@, 1, CommandStage::FollowUpMode, data)
            &&& said(step, "mode"@) == Some(JsonView::Text("one-at-a-time"@))
        }),
        ({
            let step = setup::spec_after_response(
                profile,
                CommandStage::FollowUpMode,
                data,
                response,
            );
            &&& writes(step, "set_interrupt_mode"@, 1, CommandStage::InterruptMode, data)
            &&& said(step, "mode"@) == Some(JsonView::Text("immediate"@))
        }),
        writes(
            setup::spec_after_response(profile, CommandStage::InterruptMode, data, response),
            "get_state"@,
            0,
            CommandStage::StartState,
            data,
        ),
{
    lemma_command_names();
    reveal_with_fuel(json::lookup, 2);
}

// ---------------------------------------------------------------------------
// The end of a setup
// ---------------------------------------------------------------------------

/// Once the session file of a conforming state proves to lie where it may, a running session is
/// ready with that state.
pub proof fn law_a_running_session_is_ready(
    profile: ProfileView,
    data: SetupView,
    path: Seq<char>,
    seen: SeenView,
)
    requires
        !data.starting,
        profile::spec_contained_path(profile.session_root, path, seen) is Ok,
    ensures
        setup::spec_after_look(profile, LookStage::Model, path, data, seen) == Ok::<
            SetupStepView,
            error::ErrorView,
        >(SetupStepView::Ready { state: data.state }),
{
}

/// A start looks at the session file once more, then holds the session against the one that is
/// resumed, and looks at the file a last time.
pub proof fn law_a_start_checks_the_session(
    profile: ProfileView,
    data: SetupView,
    path: Seq<char>,
    seen: SeenView,
    id: Seq<char>,
    file: Seq<char>,
)
    requires
        data.starting,
        profile::spec_contained_path(profile.session_root, path, seen) is Ok,
        data.state.get("sessionId"@) == Some(JsonView::Text(id)),
        profile::spec_check_state(data.state) == Ok::<Seq<char>, error::ErrorView>(file),
        profile::spec_check_session_path(profile.session_root, file) is Ok,
    ensures
        setup::spec_after_look(profile, LookStage::Model, path, data, seen) == Ok::<
            SetupStepView,
            error::ErrorView,
        >(SetupStepView::Look { path: file, occasion: LookStage::Startup, data }),
        ({
            let same = data.resume matches Some((old_id, old_file)) ==> old_id == id
                && path::spec_components(old_file) == path::spec_components(file);
            setup::spec_after_look(profile, LookStage::Startup, path, data, seen) == if same {
                Ok::<SetupStepView, error::ErrorView>(
                    SetupStepView::Look { path: file, occasion: LookStage::Record, data },
                )
            } else {
                Err(error::protocol_fault("OMP resumed a different persisted session"@))
            }
        }),
{
    law_a_conforming_state_is_looked_at(profile, data, LookStage::Startup, file);
}

/// A start that resumes a session needs both its identifier and its file of the state, and one that
/// does not needs them to be recorded.
pub proof fn law_a_start_needs_the_session(
    profile: ProfileView,
    data: SetupView,
    path: Seq<char>,
    seen: SeenView,
)
    requires
        profile::spec_contained_path(profile.session_root, path, seen) is Ok,
        !(data.state.get("sessionId"@) matches Some(JsonView::Text(_))) || !(data.state.get(
            "sessionFile"@,
        ) matches Some(JsonView::Text(_))),
    ensures
        setup::spec_after_look(profile, LookStage::Startup, path, data, seen) is Err,
        !(data.state.get("sessionId"@) matches Some(JsonView::Text(_))) ==> setup::spec_after_look(
            profile,
            LookStage::Record,
            path,
            data,
            seen,
        ) == Err::<SetupStepView, error::ErrorView>(
            error::protocol_fault("OMP state omitted sessionId"@),
        ),
{
}

/// What a start records is the thread with the session that the state gives, at the place that its
/// file leads to, for this profile and this version of the runtime.
pub proof fn law_a_start_records_the_session(
    profile: ProfileView,
    data: SetupView,
    path: Seq<char>,
    seen: SeenView,
    place: Seq<char>,
    id: Seq<char>,
)
    requires
        profile::spec_contained_path(profile.session_root, path, seen) == Ok::<
            Seq<char>,
            error::ErrorView,
        >(place),
        data.state.get("sessionId"@) == Some(JsonView::Text(id)),
    ensures
        setup::spec_after_look(profile, LookStage::Record, path, data, seen) == Ok::<
            SetupStepView,
            error::ErrorView,
        >(
            SetupStepView::Save {
                mapping: MappingView {
                    schema_version: 1,
                    thread_id: data.thread_id,
                    profile_id: "centaur-safe"@,
                    omp_version: "18.3.0"@,
                    session_id: id,
                    session_file: place,
                },
                state: data.state,
            },
        ),
{
}

/// No look at a session file that lies where it may not lets a setup go on.
pub proof fn law_a_look_outside_fails(
    profile: ProfileView,
    stage: LookStage,
    data: SetupView,
    path: Seq<char>,
    seen: SeenView,
    fault: error::ErrorView,
)
    requires
        profile::spec_contained_path(profile.session_root, path, seen) == Err::<
            Seq<char>,
            error::ErrorView,
        >(fault),
    ensures
        setup::spec_after_look(profile, stage, path, data, seen) == Err::<
            SetupStepView,
            error::ErrorView,
        >(fault),
{
}

} // verus!
