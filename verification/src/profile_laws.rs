//! What the safe profile lets pass, told name by name.

use vstd::prelude::*;

use crate::error;
use crate::json::JsonView;
use crate::path;
use crate::profile;
use crate::profile::{AllowedModels, EnvRuleView, ProfileView, SeenView};
use crate::text;
use crate::text_laws;

verus! {

/// Whether a tool is one of the nine that the profile has.
pub open spec fn safe_tool(name: Seq<char>) -> bool {
    ||| name == "bash"@
    ||| name == "edit"@
    ||| name == "glob"@
    ||| name == "grep"@
    ||| name == "lsp"@
    ||| name == "read"@
    ||| name == "task"@
    ||| name == "todo"@
    ||| name == "write"@
}

/// Whether an entry of a list of tools has a name.
pub open spec fn tool_is(tool: JsonView, name: Seq<char>) -> bool {
    tool.get("name"@) == Some(JsonView::Text(name))
}

/// Whether some entry of a list of tools has a name.
pub open spec fn has_tool(tools: Seq<JsonView>, name: Seq<char>) -> bool {
    exists|i: int| 0 <= i < tools.len() && tool_is(#[trigger] tools[i], name)
}

/// Whether a state shows the modes, exactly the tools, and a session file of the profile.
pub open spec fn shows_the_profile(state: JsonView, file: Seq<char>) -> bool {
    &&& state.get("steeringMode"@) == Some(JsonView::Text("one-at-a-time"@))
    &&& state.get("followUpMode"@) == Some(JsonView::Text("one-at-a-time"@))
    &&& state.get("interruptMode"@) == Some(JsonView::Text("immediate"@))
    &&& state.get("sessionFile"@) == Some(JsonView::Text(file))
    &&& state.get("dumpTools"@) matches Some(JsonView::List(tools))
    &&& forall|i: int|
        0 <= i < tools.len() ==> ((#[trigger] tools[i]).get("name"@) matches Some(
            JsonView::Text(name),
        ) && safe_tool(name))
    &&& has_tool(tools, "bash"@)
    &&& has_tool(tools, "edit"@)
    &&& has_tool(tools, "glob"@)
    &&& has_tool(tools, "grep"@)
    &&& has_tool(tools, "lsp"@)
    &&& has_tool(tools, "read"@)
    &&& has_tool(tools, "task"@)
    &&& has_tool(tools, "todo"@)
    &&& has_tool(tools, "write"@)
}

proof fn lemma_safe_tools(name: Seq<char>)
    ensures
        profile::spec_safe_tools().to_set().contains(name) <==> safe_tool(name),
{
    let all = profile::spec_safe_tools();
    assert(all.len() == 9);
    assert(all[0] == "bash"@);
    assert(all[1] == "edit"@);
    assert(all[2] == "glob"@);
    assert(all[3] == "grep"@);
    assert(all[4] == "lsp"@);
    assert(all[5] == "read"@);
    assert(all[6] == "task"@);
    assert(all[7] == "todo"@);
    assert(all[8] == "write"@);
    assert(all.to_set().contains(name) <==> all.contains(name));
    if all.contains(name) {
        let i = choose|i: int| 0 <= i < all.len() && all[i] == name;
        assert(0 <= i < 9);
    }
}

proof fn lemma_has_tool(tools: Seq<JsonView>, name: Seq<char>)
    ensures
        profile::tool_names(tools).contains(name) <==> has_tool(tools, name),
{
    if profile::tool_names(tools).contains(name) {
        let i = choose|i: int|
            0 <= i < tools.len() && (#[trigger] tools[i]).text("name"@) == Some(name);
        assert(tool_is(tools[i], name));
    }
    if has_tool(tools, name) {
        let i = choose|i: int| 0 <= i < tools.len() && tool_is(#[trigger] tools[i], name);
        assert(tools[i].text("name"@) == Some(name));
    }
}

/// A state passes just if it shows the profile: every tool that it names is one of the nine, each of
/// the nine is named, the modes are those of the profile, and there is a session file.
pub proof fn law_a_state_passes_just_if_it_shows_the_profile(state: JsonView, file: Seq<char>)
    ensures
        profile::spec_check_state(state) == Ok::<Seq<char>, error::ErrorView>(file)
            <==> shows_the_profile(state, file),
{
    if let Some(JsonView::List(tools)) = state.get("dumpTools"@) {
        let names = profile::tool_names(tools);
        let safe = profile::spec_safe_tools().to_set();
        assert forall|name: Seq<char>| #[trigger] names.contains(name) <==> has_tool(
            tools,
            name,
        ) by {
            lemma_has_tool(tools, name);
        }
        if profile::all_named(tools) && names == safe {
            assert forall|i: int| 0 <= i < tools.len() implies ((#[trigger] tools[i]).get("name"@)
                matches Some(JsonView::Text(name)) && safe_tool(name)) by {
                assert(tools[i].text("name"@) is Some);
                let name = tools[i].text("name"@)->Some_0;
                assert(tool_is(tools[i], name));
                assert(has_tool(tools, name));
                assert(names.contains(name));
                lemma_safe_tools(name);
            }
            lemma_safe_tools("bash"@);
            lemma_safe_tools("edit"@);
            lemma_safe_tools("glob"@);
            lemma_safe_tools("grep"@);
            lemma_safe_tools("lsp"@);
            lemma_safe_tools("read"@);
            lemma_safe_tools("task"@);
            lemma_safe_tools("todo"@);
            lemma_safe_tools("write"@);
            assert(names.contains("bash"@) && names.contains("edit"@) && names.contains("glob"@));
            assert(names.contains("grep"@) && names.contains("lsp"@) && names.contains("read"@));
            assert(names.contains("task"@) && names.contains("todo"@) && names.contains("write"@));
        }
        if shows_the_profile(state, file) {
            assert forall|i: int| 0 <= i < tools.len() implies (#[trigger] tools[i]).text(
                "name"@,
            ) is Some by {
                assert(tools[i].get("name"@) is Some);
            }
            assert forall|name: Seq<char>| #[trigger] names.contains(name) <==> safe.contains(
                name,
            ) by {
                lemma_safe_tools(name);
                assert(names.contains(name) <==> has_tool(tools, name));
                if has_tool(tools, name) {
                    let i = choose|i: int|
                        0 <= i < tools.len() && tool_is(#[trigger] tools[i], name);
                    assert(safe_tool(name));
                }
            }
            assert(names =~= safe);
        }
    }
}

/// A state that does not show the profile is refused with what it lacks first: the modes, a list of
/// tools, a name of each tool, exactly the nine tools, a session file.
pub proof fn law_refused_states(state: JsonView)
    ensures
        ({
            let modes = state.get("steeringMode"@) == Some(JsonView::Text("one-at-a-time"@))
                && state.get("followUpMode"@) == Some(JsonView::Text("one-at-a-time"@))
                && state.get("interruptMode"@) == Some(JsonView::Text("immediate"@));
            let checked = profile::spec_check_state(state);
            &&& !modes ==> checked == Err::<Seq<char>, error::ErrorView>(
                error::protocol_fault("OMP effective queue modes do not match centaur-safe"@),
            )
            &&& modes && !(state.get("dumpTools"@) matches Some(JsonView::List(_))) ==> checked
                == Err::<Seq<char>, error::ErrorView>(
                error::protocol_fault("OMP get_state omitted dumpTools"@),
            )
            &&& modes ==> (state.get("dumpTools"@) matches Some(JsonView::List(tools)) ==> {
                &&& (exists|i: int|
                    0 <= i < tools.len() && !((#[trigger] tools[i]).get("name"@) matches Some(
                        JsonView::Text(_),
                    ))) ==> checked == Err::<Seq<char>, error::ErrorView>(
                    error::protocol_fault("OMP dumpTools entry omitted name"@),
                )
                &&& profile::all_named(tools) && (exists|name: Seq<char>|
                    safe_tool(name) != #[trigger] has_tool(tools, name)) ==> checked == Err::<
                    Seq<char>,
                    error::ErrorView,
                >(
                    error::protocol_fault(
                        "OMP effective tools differ from centaur-safe: expected "@
                            + profile::spec_listing(Set::new(|name: Seq<char>| safe_tool(name)))
                            + ", observed "@ + profile::spec_listing(
                            Set::new(|name: Seq<char>| has_tool(tools, name)),
                        ),
                    ),
                )
            })
        }),
{
    if let Some(JsonView::List(tools)) = state.get("dumpTools"@) {
        if exists|i: int|
            0 <= i < tools.len() && !((#[trigger] tools[i]).get("name"@) matches Some(
                JsonView::Text(_),
            )) {
            let i = choose|i: int|
                0 <= i < tools.len() && !((#[trigger] tools[i]).get("name"@) matches Some(
                    JsonView::Text(_),
                ));
            assert(!(tools[i].text("name"@) is Some));
            assert(!profile::all_named(tools));
        }
        let safe = Set::new(|name: Seq<char>| safe_tool(name));
        let named = Set::new(|name: Seq<char>| has_tool(tools, name));
        assert forall|name: Seq<char>| #[trigger] profile::spec_safe_tools().to_set().contains(
            name,
        ) == safe.contains(name) by {
            lemma_safe_tools(name);
        }
        assert(profile::spec_safe_tools().to_set() =~= safe);
        assert forall|name: Seq<char>| #[trigger] profile::tool_names(tools).contains(name)
            == named.contains(name) by {
            lemma_has_tool(tools, name);
        }
        assert(profile::tool_names(tools) =~= named);
        if exists|name: Seq<char>| safe_tool(name) != #[trigger] has_tool(tools, name) {
            let name = choose|name: Seq<char>| safe_tool(name) != #[trigger] has_tool(tools, name);
            assert(safe.contains(name) != named.contains(name));
        }
    }
}

/// A whole check of a state passes just if the state shows the profile and its session file lies
/// where it may.
pub proof fn law_a_verified_state(
    profile: ProfileView,
    state: JsonView,
    seen: SeenView,
    file: Seq<char>,
)
    requires
        state.get("sessionFile"@) == Some(JsonView::Text(file)),
    ensures
        profile::spec_verify_state(profile, state, seen) is Ok <==> shows_the_profile(state, file)
            && profile::spec_contained_path(profile.session_root, file, seen) is Ok,
{
    law_a_state_passes_just_if_it_shows_the_profile(state, file);
    if let Ok(other) = profile::spec_check_state(state) {
        law_a_state_passes_just_if_it_shows_the_profile(state, other);
    }
}

// ---------------------------------------------------------------------------
// The models that the operator allows
// ---------------------------------------------------------------------------

/// Whether no character of a text is white space.
pub open spec fn unspaced(s: Seq<char>) -> bool {
    forall|i: int| 0 <= i < s.len() ==> !text::spec_whitespace(#[trigger] s[i])
}

/// Whether a piece of the list, but for white space around it, is a provider and a model with a
/// slash between them.
pub open spec fn entry_is(piece: Seq<char>, provider: Seq<char>, model: Seq<char>) -> bool {
    &&& text::spec_trim(piece) == provider + seq!['/'] + model
    &&& provider.len() > 0 && unspaced(provider) && !provider.contains('/')
    &&& model.len() > 0 && unspaced(model)
}

proof fn lemma_entry(piece: Seq<char>, provider: Seq<char>, model: Seq<char>)
    ensures
        profile::spec_allowed_entry(piece) == Ok::<
            Option<(Seq<char>, Seq<char>)>,
            error::ErrorView,
        >(Some((provider, model))) <==> entry_is(piece, provider, model),
        profile::spec_allowed_entry(piece) == Ok::<
            Option<(Seq<char>, Seq<char>)>,
            error::ErrorView,
        >(None) <==> text::spec_trim(piece).len() == 0,
{
    let entry = text::spec_trim(piece);
    text_laws::law_cut_in_two(entry, '/');
    if !provider.contains('/') {
        text_laws::law_cut_what_was_joined(provider, model, '/');
    }
    assert(unspaced(provider) == !profile::spaced(provider));
    assert(unspaced(model) == !profile::spaced(model));
}

proof fn lemma_entries(pieces: Seq<Seq<char>>, provider: Seq<char>, model: Seq<char>)
    ensures
        profile::spec_allowed_entries(pieces) matches Ok(models) ==> (models.contains(
            (provider, model),
        ) <==> exists|i: int|
            0 <= i < pieces.len() && entry_is(#[trigger] pieces[i], provider, model)),
        profile::spec_allowed_entries(pieces) is Ok <==> forall|i: int|
            0 <= i < pieces.len() ==> profile::spec_allowed_entry(#[trigger] pieces[i]) is Ok,
    decreases pieces.len(),
{
    if pieces.len() > 0 {
        let front = pieces.drop_last();
        lemma_entries(front, provider, model);
        lemma_entry(pieces.last(), provider, model);
        assert(forall|i: int| 0 <= i < front.len() ==> #[trigger] pieces[i] == front[i]);
        assert(forall|i: int| 0 <= i < front.len() ==> pieces[i] == #[trigger] front[i]);
        if profile::spec_allowed_entries(pieces) is Ok {
            if let Some((p, m)) = profile::spec_allowed_entry(pieces.last())->Ok_0 {
                lemma_entry(pieces.last(), p, m);
            }
            let listed = exists|i: int|
                0 <= i < pieces.len() && entry_is(#[trigger] pieces[i], provider, model);
            let before = exists|i: int|
                0 <= i < front.len() && entry_is(#[trigger] front[i], provider, model);
            if before {
                let i = choose|i: int|
                    0 <= i < front.len() && entry_is(#[trigger] front[i], provider, model);
                assert(entry_is(pieces[i], provider, model));
            }
            if entry_is(pieces.last(), provider, model) {
                assert(entry_is(pieces[pieces.len() - 1], provider, model));
            }
            if listed {
                let i = choose|i: int|
                    0 <= i < pieces.len() && entry_is(#[trigger] pieces[i], provider, model);
                if i < front.len() {
                    assert(entry_is(front[i], provider, model));
                }
            }
        }
        if forall|i: int|
            0 <= i < pieces.len() ==> profile::spec_allowed_entry(#[trigger] pieces[i]) is Ok {
            assert forall|i: int| 0 <= i < front.len() implies profile::spec_allowed_entry(
                #[trigger] front[i],
            ) is Ok by {
                assert(profile::spec_allowed_entry(pieces[i]) is Ok);
            }
            assert(profile::spec_allowed_entry(pieces[pieces.len() - 1]) is Ok);
        }
    }
}

/// A model is allowed just if some piece of the operator's list, between commas, is its provider and
/// its name.
pub proof fn law_a_model_is_allowed_just_if_listed(
    raw: Seq<char>,
    provider: Seq<char>,
    model: Seq<char>,
)
    ensures
        profile::spec_allowed_list(raw) matches Ok(models) ==> (models.contains((provider, model))
            <==> exists|i: int|
            0 <= i < text::spec_split(raw, ',').len() && entry_is(
                #[trigger] text::spec_split(raw, ',')[i],
                provider,
                model,
            )),
{
    lemma_entries(text::spec_split(raw, ','), provider, model);
}

/// A list whose pieces are all providers with models or blank, at least one of them not blank, is
/// taken.
pub proof fn law_a_list_of_models_is_taken(raw: Seq<char>, k: int)
    requires
        forall|i: int|
            0 <= i < text::spec_split(raw, ',').len() ==> {
                let piece = #[trigger] text::spec_split(raw, ',')[i];
                ||| text::spec_trim(piece).len() == 0
                ||| exists|p: Seq<char>, m: Seq<char>| entry_is(piece, p, m)
            },
        0 <= k < text::spec_split(raw, ',').len(),
        text::spec_trim(text::spec_split(raw, ',')[k]).len() > 0,
    ensures
        profile::spec_allowed_list(raw) is Ok,
{
    let pieces = text::spec_split(raw, ',');
    assert forall|i: int| 0 <= i < pieces.len() implies profile::spec_allowed_entry(
        #[trigger] pieces[i],
    ) is Ok by {
        if text::spec_trim(pieces[i]).len() == 0 {
            lemma_entry(pieces[i], seq![], seq![]);
        } else {
            let (p, m) = choose|p: Seq<char>, m: Seq<char>| entry_is(pieces[i], p, m);
            lemma_entry(pieces[i], p, m);
        }
    }
    let (p, m) = choose|p: Seq<char>, m: Seq<char>| entry_is(pieces[k], p, m);
    lemma_entries(pieces, p, m);
    let models = profile::spec_allowed_entries(pieces)->Ok_0;
    assert(models.contains((p, m)));
}

/// A list with a piece that is neither blank nor a provider with a model is refused.
pub proof fn law_a_list_with_another_piece_is_refused(raw: Seq<char>, k: int)
    requires
        0 <= k < text::spec_split(raw, ',').len(),
        text::spec_trim(text::spec_split(raw, ',')[k]).len() > 0,
        forall|p: Seq<char>, m: Seq<char>|
            !#[trigger] entry_is(text::spec_split(raw, ',')[k], p, m),
    ensures
        profile::spec_allowed_list(raw) is Err,
{
    let pieces = text::spec_split(raw, ',');
    lemma_entries(pieces, seq![], seq![]);
    lemma_entry(pieces[k], seq![], seq![]);
    if let Ok(Some((p, m))) = profile::spec_allowed_entry(pieces[k]) {
        lemma_entry(pieces[k], p, m);
    }
    assert(!(profile::spec_allowed_entry(pieces[k]) is Ok));
}

/// A list with nothing but blanks is refused.
pub proof fn law_a_blank_list_is_refused(raw: Seq<char>)
    requires
        forall|i: int|
            0 <= i < text::spec_split(raw, ',').len() ==> text::spec_trim(
                #[trigger] text::spec_split(raw, ',')[i],
            ).len() == 0,
    ensures
        profile::spec_allowed_list(raw) == Err::<Set<(Seq<char>, Seq<char>)>, error::ErrorView>(
            error::protocol_fault("OMP provider/model allowlist may not be empty"@),
        ),
{
    let pieces = text::spec_split(raw, ',');
    assert forall|i: int| 0 <= i < pieces.len() implies profile::spec_allowed_entry(
        #[trigger] pieces[i],
    ) is Ok by {
        lemma_entry(pieces[i], seq![], seq![]);
    }
    lemma_entries(pieces, seq![], seq![]);
    let models = profile::spec_allowed_entries(pieces)->Ok_0;
    assert forall|pair: (Seq<char>, Seq<char>)| !#[trigger] models.contains(pair) by {
        lemma_entries(pieces, pair.0, pair.1);
    }
    assert(models =~= Set::empty());
}

/// The models that are allowed are the pairs that were entered, each with both its parts.
pub proof fn law_entered_models(models: AllowedModels, provider: Seq<char>, model: Seq<char>)
    ensures
        models@.contains((provider, model)) <==> exists|i: int|
            0 <= i < models.entries@.len() && (#[trigger] models.entries@[i]).0@ == provider
                && models.entries@[i].1@ == model,
{
    if models@.contains((provider, model)) {
        let i = choose|i: int| profile::allowed_at(models.entries@, (provider, model), i);
        assert(models.entries@[i].0@ == provider);
    }
    if exists|i: int|
        0 <= i < models.entries@.len() && (#[trigger] models.entries@[i]).0@ == provider
            && models.entries@[i].1@ == model {
        let i = choose|i: int|
            0 <= i < models.entries@.len() && (#[trigger] models.entries@[i]).0@ == provider
                && models.entries@[i].1@ == model;
        assert(profile::allowed_at(models.entries@, (provider, model), i));
    }
}

/// A model passes just if it is among those that are allowed.
pub proof fn law_only_allowed_models_pass(
    profile: ProfileView,
    provider: Seq<char>,
    model: Seq<char>,
)
    ensures
        profile::spec_verify_allowed_model(profile, provider, model) is Ok
            <==> profile.allowed_models.contains((provider, model)),
{
}

// ---------------------------------------------------------------------------
// Where a session may lie
// ---------------------------------------------------------------------------

/// A path is taken where it is absolute, stays below the root without its detours, and what it leads
/// to does; then the place it leads to is the one that counts. Where nothing is there yet, its
/// directory must lead below the root, and the path itself counts.
pub proof fn law_a_contained_path_is_taken(
    root: Seq<char>,
    path: Seq<char>,
    normalized: Seq<path::PathPart>,
    place: Seq<char>,
)
    requires
        path.len() > 0 && path[0] == '/',
        path::spec_normalize(path::spec_components(path)) == Some(normalized),
        path::within(normalized, path::spec_components(root)),
        path::within(path::spec_components(place), path::spec_components(root)),
    ensures
        profile::spec_contained_path(
            root,
            path,
            SeenView::Present { canonical: Ok(place) },
        ) == Ok::<Seq<char>, error::ErrorView>(place),
        profile::spec_contained_path(
            root,
            path,
            SeenView::Absent { canonical_parent: Ok(place) },
        ) == if path::spec_components(path).last() is RootDir {
            Err::<Seq<char>, error::ErrorView>(
                error::protocol_fault("OMP session path has no parent"@),
            )
        } else {
            Ok(path)
        },
{
    path::lemma_root_in_front(path);
    assert(path::spec_components(path).len() > 0);
}

/// A path is refused with what is wrong with it: that it is relative, that it steps out of the root
/// of the file system, that it leaves the root of the sessions, or that it leads out of it.
pub proof fn law_refused_paths(root: Seq<char>, path: Seq<char>, seen: SeenView)
    ensures
        ({
            let absolute = path.len() > 0 && path[0] == '/';
            let taken = profile::spec_contained_path(root, path, seen);
            let below = path::spec_components(root);
            &&& !absolute ==> taken == Err::<Seq<char>, error::ErrorView>(
                error::protocol_fault("OMP session path must be absolute"@),
            )
            &&& absolute ==> match path::spec_normalize(path::spec_components(path)) {
                None => taken == Err::<Seq<char>, error::ErrorView>(
                    error::protocol_fault("OMP session path escapes its root"@),
                ),
                Some(normalized) => if !path::within(normalized, below) {
                    taken == Err::<Seq<char>, error::ErrorView>(
                        error::protocol_fault("OMP session path escapes the operator session root"@),
                    )
                } else {
                    seen matches SeenView::Present { canonical: Ok(target) } ==> !path::within(
                        path::spec_components(target),
                        below,
                    ) ==> taken == Err::<Seq<char>, error::ErrorView>(
                        error::protocol_fault(
                            "OMP session path resolves outside the operator session root"@,
                        ),
                    )
                },
            }
        }),
{
}

/// A path that is relative, has no normal form, leaves the root or leads out of it is refused, and so
/// is one that could not be followed.
pub proof fn law_a_path_outside_is_refused(
    root: Seq<char>,
    path: Seq<char>,
    seen: SeenView,
    fault: Seq<char>,
)
    ensures
        ({
            let outside = match path::spec_normalize(path::spec_components(path)) {
                None => true,
                Some(normalized) => !path::within(normalized, path::spec_components(root)),
            };
            !(path.len() > 0 && path[0] == '/') || outside ==> profile::spec_contained_path(
                root,
                path,
                seen,
            ) is Err
        }),
        seen matches SeenView::Present { canonical: Ok(target) } && !path::within(
            path::spec_components(target),
            path::spec_components(root),
        ) ==> profile::spec_contained_path(root, path, seen) is Err,
        seen matches SeenView::Absent { canonical_parent: Ok(parent) } && !path::within(
            path::spec_components(parent),
            path::spec_components(root),
        ) ==> profile::spec_contained_path(root, path, seen) is Err,
        seen == (SeenView::Present { canonical: Err(fault) }) || seen == (SeenView::Absent {
            canonical_parent: Err(fault),
        }) ==> profile::spec_contained_path(root, path, seen) is Err,
{
}

// ---------------------------------------------------------------------------
// How the runtime is started
// ---------------------------------------------------------------------------

/// The runtime is started in the directory of the thread, with extensions, skills, rules and titles
/// off, its sessions below the root, and exactly the nine tools.
pub proof fn law_launch_arguments(profile: ProfileView, cwd: Seq<char>)
    ensures
        ({
            let plan = profile::spec_command(profile, cwd);
            &&& plan.program == profile.binary
            &&& plan.directory == Some(cwd)
            &&& plan.args.len() == 10
            &&& plan.args[0] == "--mode"@ && plan.args[1] == "rpc"@
            &&& plan.args[2] == "--no-extensions"@
            &&& plan.args[3] == "--no-skills"@
            &&& plan.args[4] == "--no-rules"@
            &&& plan.args[5] == "--no-title"@
            &&& plan.args[6] == "--session-dir"@ && plan.args[7] == profile.session_root
            &&& plan.args[8] == "--tools"@
            &&& plan.args[9] == "bash,edit,glob,grep,lsp,read,task,todo,write"@
        }),
{
    let tools = profile::spec_safe_tools();
    reveal_strlit("bash,edit,glob,grep,lsp,read,task,todo,write");
    reveal_strlit("bash");
    reveal_strlit("edit");
    reveal_strlit("glob");
    reveal_strlit("grep");
    reveal_strlit("lsp");
    reveal_strlit("read");
    reveal_strlit("task");
    reveal_strlit("todo");
    reveal_strlit("write");
    reveal_strlit(",");
    reveal_with_fuel(text::spec_join, 9);
    let a = seq!["bash"@];
    let b = a.push("edit"@);
    let c = b.push("glob"@);
    let d = c.push("grep"@);
    let e = d.push("lsp"@);
    let f = e.push("read"@);
    let g = f.push("task"@);
    let h = g.push("todo"@);
    assert(tools =~= h.push("write"@));
    assert(h.push("write"@).drop_last() =~= h);
    assert(g.push("todo"@).drop_last() =~= g);
    assert(f.push("task"@).drop_last() =~= f);
    assert(e.push("read"@).drop_last() =~= e);
    assert(d.push("lsp"@).drop_last() =~= d);
    assert(c.push("grep"@).drop_last() =~= c);
    assert(b.push("glob"@).drop_last() =~= b);
    assert(a.push("edit"@).drop_last() =~= a);
    assert(text::spec_join(a, ","@) == "bash"@);
    assert(text::spec_join(b, ","@) == "bash"@ + ","@ + "edit"@);
    assert(text::spec_join(c, ","@) == text::spec_join(b, ","@) + ","@ + "glob"@);
    assert(text::spec_join(d, ","@) == text::spec_join(c, ","@) + ","@ + "grep"@);
    assert(text::spec_join(e, ","@) == text::spec_join(d, ","@) + ","@ + "lsp"@);
    assert(text::spec_join(f, ","@) == text::spec_join(e, ","@) + ","@ + "read"@);
    assert(text::spec_join(g, ","@) == text::spec_join(f, ","@) + ","@ + "task"@);
    assert(text::spec_join(h, ","@) == text::spec_join(g, ","@) + ","@ + "todo"@);
    assert(text::spec_join(tools, ","@) == text::spec_join(h, ","@) + ","@ + "write"@);
    assert(text::spec_join(tools, ","@) =~= "bash,edit,glob,grep,lsp,read,task,todo,write"@);
}

/// Whether a variable of the environment is one that the runtime inherits.
pub open spec fn inherited(name: Seq<char>) -> bool {
    ||| name == "HOME"@
    ||| name == "PATH"@
    ||| name == "TMPDIR"@
    ||| name == "TMP"@
    ||| name == "TEMP"@
    ||| name == "LANG"@
    ||| name == "LC_ALL"@
    ||| name == "HTTP_PROXY"@
    ||| name == "HTTPS_PROXY"@
    ||| name == "NO_PROXY"@
    ||| name == "NODE_EXTRA_CA_CERTS"@
    ||| name == "ANTHROPIC_API_KEY"@
    ||| name == "OPENAI_API_KEY"@
    ||| name == "GEMINI_API_KEY"@
    ||| name == "AWS_ACCESS_KEY_ID"@
    ||| name == "AWS_SECRET_ACCESS_KEY"@
    ||| name == "AWS_SESSION_TOKEN"@
    ||| name == "AWS_REGION"@
    ||| name == "AWS_DEFAULT_REGION"@
    ||| name == "AWS_PROFILE"@
    ||| name == "GOOGLE_CLOUD_PROJECT"@
    ||| name == "GOOGLE_CLOUD_LOCATION"@
    ||| name == "GOOGLE_APPLICATION_CREDENTIALS"@
}

proof fn lemma_inherited(name: Seq<char>)
    ensures
        inherited(name) <==> exists|i: int|
            0 <= i < profile::spec_approved_env().len() && #[trigger] profile::spec_approved_env()[i]
                == name,
{
    let all = profile::spec_approved_env();
    assert(all.len() == 23);
    assert(all[0] == "HOME"@ && all[1] == "PATH"@ && all[2] == "TMPDIR"@ && all[3] == "TMP"@);
    assert(all[4] == "TEMP"@ && all[5] == "LANG"@ && all[6] == "LC_ALL"@);
    assert(all[7] == "HTTP_PROXY"@ && all[8] == "HTTPS_PROXY"@ && all[9] == "NO_PROXY"@);
    assert(all[10] == "NODE_EXTRA_CA_CERTS"@ && all[11] == "ANTHROPIC_API_KEY"@);
    assert(all[12] == "OPENAI_API_KEY"@ && all[13] == "GEMINI_API_KEY"@);
    assert(all[14] == "AWS_ACCESS_KEY_ID"@ && all[15] == "AWS_SECRET_ACCESS_KEY"@);
    assert(all[16] == "AWS_SESSION_TOKEN"@ && all[17] == "AWS_REGION"@);
    assert(all[18] == "AWS_DEFAULT_REGION"@ && all[19] == "AWS_PROFILE"@);
    assert(all[20] == "GOOGLE_CLOUD_PROJECT"@ && all[21] == "GOOGLE_CLOUD_LOCATION"@);
    assert(all[22] == "GOOGLE_APPLICATION_CREDENTIALS"@);
}

/// The runtime inherits exactly the approved variables, and is given one more, which tells it the
/// root of the sessions; the question for its version inherits the same and is given none.
pub proof fn law_launch_environment(profile: ProfileView, cwd: Seq<char>, name: Seq<char>)
    ensures
        inherited(name) <==> profile::spec_command(profile, cwd).env.contains(
            EnvRuleView::Inherit { name },
        ),
        inherited(name) <==> profile::spec_version_plan(profile.binary).env.contains(
            EnvRuleView::Inherit { name },
        ),
        forall|value: Seq<char>|
            #[trigger] profile::spec_command(profile, cwd).env.contains(
                EnvRuleView::Assign { name, value },
            ) <==> name == "PI_CODING_AGENT_DIR"@ && value == profile.session_root,
        forall|value: Seq<char>|
            !#[trigger] profile::spec_version_plan(profile.binary).env.contains(
                EnvRuleView::Assign { name, value },
            ),
        profile::spec_version_plan(profile.binary).program == profile.binary,
        profile::spec_version_plan(profile.binary).args == seq!["--version"@],
{
    lemma_inherited(name);
    let all = profile::spec_approved_env();
    let base = profile::inherited_env();
    let env = profile::spec_command(profile, cwd).env;
    let rule = EnvRuleView::Inherit { name };
    let last = EnvRuleView::Assign { name: "PI_CODING_AGENT_DIR"@, value: profile.session_root };
    assert(base.len() == all.len());
    assert(env =~= base.push(last));
    assert(env[base.len() as int] == last);
    if inherited(name) {
        let i = choose|i: int| 0 <= i < all.len() && #[trigger] all[i] == name;
        assert(base[i] == rule);
        assert(env[i] == rule);
    }
    if base.contains(rule) {
        let i = choose|i: int| 0 <= i < base.len() && base[i] == rule;
        assert(all[i] == name);
    }
    if env.contains(rule) {
        let i = choose|i: int| 0 <= i < env.len() && env[i] == rule;
        assert(i < base.len());
        assert(all[i] == name);
    }
    assert forall|value: Seq<char>| #[trigger] env.contains(
        EnvRuleView::Assign { name, value },
    ) implies name == "PI_CODING_AGENT_DIR"@ && value == profile.session_root by {
        let given = EnvRuleView::Assign { name, value };
        let i = choose|i: int| 0 <= i < env.len() && env[i] == given;
        if i < base.len() {
            assert(base[i] == EnvRuleView::Inherit { name: all[i] });
        }
    }
}

} // verus!
