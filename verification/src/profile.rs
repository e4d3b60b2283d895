//! The restricted profile under which the runtime is started: which binary, which models, which
//! tools, and below which directory its sessions lie.

use vstd::prelude::*;

use crate::error;
use crate::error::{protocol_error, HarnessServerError};
use crate::json;
use crate::json::Json;
use crate::names;
use crate::names::NameSet;
use crate::outside;
use crate::outside::quote;
use crate::path;
use crate::path::{
    components, components_start_with, is_absolute, join_path, normalize_without_symlinks,
    starts_with, PathComponent,
};
use crate::text;
use crate::text::{concat, has_whitespace, join, option_eq, split_once, text_eq, trim};

verus! {

/// The name of the profile.
pub const PROFILE_ID: &'static str = "centaur-safe";

/// The version of the runtime that the profile is made for.
pub const OMP_VERSION: &'static str = "18.3.0";

/// The tools that the profile leaves to the agent.
pub open spec fn spec_safe_tools() -> Seq<Seq<char>> {
    seq![
        "bash"@,
        "edit"@,
        "glob"@,
        "grep"@,
        "lsp"@,
        "read"@,
        "task"@,
        "todo"@,
        "write"@,
    ]
}

/// The environment variables that are handed on to the runtime.
pub open spec fn spec_approved_env() -> Seq<Seq<char>> {
    seq![
        "HOME"@,
        "PATH"@,
        "TMPDIR"@,
        "TMP"@,
        "TEMP"@,
        "LANG"@,
        "LC_ALL"@,
        "HTTP_PROXY"@,
        "HTTPS_PROXY"@,
        "NO_PROXY"@,
        "NODE_EXTRA_CA_CERTS"@,
        "ANTHROPIC_API_KEY"@,
        "OPENAI_API_KEY"@,
        "GEMINI_API_KEY"@,
        "AWS_ACCESS_KEY_ID"@,
        "AWS_SECRET_ACCESS_KEY"@,
        "AWS_SESSION_TOKEN"@,
        "AWS_REGION"@,
        "AWS_DEFAULT_REGION"@,
        "AWS_PROFILE"@,
        "GOOGLE_CLOUD_PROJECT"@,
        "GOOGLE_CLOUD_LOCATION"@,
        "GOOGLE_APPLICATION_CREDENTIALS"@,
    ]
}

/// Adds a string to a list of strings.
fn push_text(list: &mut Vec<String>, item: &str)
    ensures
        text::texts(final(list)@) == text::texts(old(list)@).push(item@),
{
    list.push(item.to_owned());
    assert(text::texts(list@) =~= text::texts(old(list)@).push(item@));
}

/// The tools that the profile leaves to the agent.
pub fn safe_tools() -> (tools: Vec<String>)
    ensures
        text::texts(tools@) == spec_safe_tools(),
{
    let mut tools: Vec<String> = Vec::new();
    push_text(&mut tools, "bash");
    push_text(&mut tools, "edit");
    push_text(&mut tools, "glob");
    push_text(&mut tools, "grep");
    push_text(&mut tools, "lsp");
    push_text(&mut tools, "read");
    push_text(&mut tools, "task");
    push_text(&mut tools, "todo");
    push_text(&mut tools, "write");
    assert(text::texts(tools@) =~= spec_safe_tools());
    tools
}

/// The environment variables that are handed on to the runtime.
pub fn approved_env() -> (names: Vec<String>)
    ensures
        text::texts(names@) == spec_approved_env(),
{
    let mut names: Vec<String> = Vec::new();
    push_text(&mut names, "HOME");
    push_text(&mut names, "PATH");
    push_text(&mut names, "TMPDIR");
    push_text(&mut names, "TMP");
    push_text(&mut names, "TEMP");
    push_text(&mut names, "LANG");
    push_text(&mut names, "LC_ALL");
    push_text(&mut names, "HTTP_PROXY");
    push_text(&mut names, "HTTPS_PROXY");
    push_text(&mut names, "NO_PROXY");
    push_text(&mut names, "NODE_EXTRA_CA_CERTS");
    push_text(&mut names, "ANTHROPIC_API_KEY");
    push_text(&mut names, "OPENAI_API_KEY");
    push_text(&mut names, "GEMINI_API_KEY");
    push_text(&mut names, "AWS_ACCESS_KEY_ID");
    push_text(&mut names, "AWS_SECRET_ACCESS_KEY");
    push_text(&mut names, "AWS_SESSION_TOKEN");
    push_text(&mut names, "AWS_REGION");
    push_text(&mut names, "AWS_DEFAULT_REGION");
    push_text(&mut names, "AWS_PROFILE");
    push_text(&mut names, "GOOGLE_CLOUD_PROJECT");
    push_text(&mut names, "GOOGLE_CLOUD_LOCATION");
    push_text(&mut names, "GOOGLE_APPLICATION_CREDENTIALS");
    assert(text::texts(names@) =~= spec_approved_env());
    names
}

// ---------------------------------------------------------------------------
// The allowed models
// ---------------------------------------------------------------------------

/// A provider and a model.
pub type ModelPair = (Seq<char>, Seq<char>);

/// The models that the operator allows, each with its provider.
#[derive(Debug)]
pub struct AllowedModels {
    pub entries: Vec<(String, String)>,
}

/// Whether an entry stands at a position.
pub open spec fn allowed_at(entries: Seq<(String, String)>, pair: ModelPair, i: int) -> bool {
    0 <= i < entries.len() && entries[i].0@ == pair.0 && entries[i].1@ == pair.1
}

impl View for AllowedModels {
    type V = Set<ModelPair>;

    open spec fn view(&self) -> Set<ModelPair> {
        Set::new(|pair: ModelPair| exists|i: int| allowed_at(self.entries@, pair, i))
    }
}

impl AllowedModels {
    /// No model occurs twice.
    pub open spec fn wf(self) -> bool {
        forall|i: int, j: int, pair: ModelPair|
            allowed_at(self.entries@, pair, i) && allowed_at(self.entries@, pair, j) ==> i == j
    }

    fn allows(&self, provider: &str, model: &str) -> (yes: bool)
        ensures
            yes == self@.contains((provider@, model@)),
    {
        let mut i: usize = 0;
        while i < self.entries.len()
            invariant
                i <= self.entries@.len(),
                forall|j: int| 0 <= j < i ==> !allowed_at(self.entries@, (provider@, model@), j),
            decreases self.entries@.len() - i,
        {
            if text_eq(self.entries[i].0.as_str(), provider) && text_eq(
                self.entries[i].1.as_str(),
                model,
            ) {
                assert(allowed_at(self.entries@, (provider@, model@), i as int));
                return true;
            }
            i += 1;
        }
        false
    }

    /// Whether a provider and a model are among them.
    pub fn contains(&self, pair: &(String, String)) -> (yes: bool)
        ensures
            yes == self@.contains((pair.0@, pair.1@)),
    {
        self.allows(pair.0.as_str(), pair.1.as_str())
    }

    fn insert(&mut self, provider: &str, model: &str)
        requires
            old(self).wf(),
        ensures
            final(self).wf(),
            final(self)@ == old(self)@.insert((provider@, model@)),
    {
        let ghost before = self.entries@;
        if self.allows(provider, model) {
            assert(self@ =~= old(self)@.insert((provider@, model@)));
            return ;
        }
        self.entries.push((provider.to_owned(), model.to_owned()));
        proof {
            let after = self.entries@;
            assert forall|pair: ModelPair|
                #![trigger self@.contains(pair)]
                self@.contains(pair) == old(self)@.insert((provider@, model@)).contains(pair) by {
                if exists|i: int| allowed_at(after, pair, i) {
                    let i = choose|i: int| allowed_at(after, pair, i);
                    if i < before.len() {
                        assert(allowed_at(before, pair, i));
                    }
                }
                if exists|i: int| allowed_at(before, pair, i) {
                    let i = choose|i: int| allowed_at(before, pair, i);
                    assert(allowed_at(after, pair, i));
                }
                assert(allowed_at(after, (provider@, model@), before.len() as int));
            }
            assert(self@ =~= old(self)@.insert((provider@, model@)));
            assert forall|i: int, j: int, pair: ModelPair|
                allowed_at(after, pair, i) && allowed_at(after, pair, j) implies i == j by {
                if i < before.len() {
                    assert(allowed_at(before, pair, i));
                }
                if j < before.len() {
                    assert(allowed_at(before, pair, j));
                }
            }
        }
    }
}

/// Whether any character of a text is white space.
pub open spec fn spaced(s: Seq<char>) -> bool {
    exists|i: int| 0 <= i < s.len() && text::spec_whitespace(#[trigger] s[i])
}

/// The provider and the model that one entry of the allowlist names; none for a blank entry.
pub open spec fn spec_allowed_entry(piece: Seq<char>) -> Result<
    Option<ModelPair>,
    error::ErrorView,
> {
    let entry = text::spec_trim(piece);
    if entry.len() == 0 {
        Ok(None)
    } else {
        match text::spec_split_once(entry, '/') {
            None => Err(
                error::protocol_fault("OMP allowlist entries must use provider/model syntax"@),
            ),
            Some((provider, model)) => if provider.len() == 0 || model.len() == 0 || spaced(
                provider,
            ) || spaced(model) {
                Err(error::protocol_fault("OMP allowlist contains an invalid provider/model"@))
            } else {
                Ok(Some((provider, model)))
            },
        }
    }
}

/// The models that the entries of an allowlist name; the first entry that is refused decides the
/// error.
pub open spec fn spec_allowed_entries(pieces: Seq<Seq<char>>) -> Result<
    Set<ModelPair>,
    error::ErrorView,
>
    decreases pieces.len(),
{
    if pieces.len() == 0 {
        Ok(Set::empty())
    } else {
        match spec_allowed_entries(pieces.drop_last()) {
            Err(e) => Err(e),
            Ok(models) => match spec_allowed_entry(pieces.last()) {
                Err(e) => Err(e),
                Ok(None) => Ok(models),
                Ok(Some(pair)) => Ok(models.insert(pair)),
            },
        }
    }
}

/// The models of an allowlist: entries `provider/model` with commas between them.
pub open spec fn spec_allowed_list(raw: Seq<char>) -> Result<Set<ModelPair>, error::ErrorView> {
    match spec_allowed_entries(text::spec_split(raw, ',')) {
        Err(e) => Err(e),
        Ok(models) => if models == Set::<ModelPair>::empty() {
            Err(error::protocol_fault("OMP provider/model allowlist may not be empty"@))
        } else {
            Ok(models)
        },
    }
}

proof fn lemma_entries_fail(pieces: Seq<Seq<char>>, n: int)
    requires
        0 <= n <= pieces.len(),
        spec_allowed_entries(pieces.take(n)) is Err,
    ensures
        spec_allowed_entries(pieces) == spec_allowed_entries(pieces.take(n)),
    decreases pieces.len(),
{
    if n < pieces.len() {
        assert(pieces.drop_last().take(n) =~= pieces.take(n));
        lemma_entries_fail(pieces.drop_last(), n);
    } else {
        assert(pieces.take(n) =~= pieces);
    }
}

/// Reads one entry of an allowlist into the models.
fn add_entry(models: &mut AllowedModels, piece: &str) -> (r: Result<(), HarnessServerError>)
    requires
        old(models).wf(),
    ensures
        final(models).wf(),
        match (r, spec_allowed_entry(piece@)) {
            (Ok(_), Ok(None)) => final(models)@ == old(models)@,
            (Ok(_), Ok(Some(pair))) => final(models)@ == old(models)@.insert(pair),
            (Err(e), Err(fault)) => e@ == fault,
            _ => false,
        },
{
    let entry = trim(piece);
    proof {
        reveal_strlit("");
        assert(""@ =~= Seq::<char>::empty());
        assert(entry@.len() == 0 <==> entry@ =~= ""@);
    }
    if text_eq(entry, "") {
        return Ok(());
    }
    let (provider, model) = match split_once(entry, '/') {
        Some(pair) => pair,
        None => {
            return Err(protocol_error("OMP allowlist entries must use provider/model syntax"));
        },
    };
    proof {
        assert(provider@.len() == 0 <==> provider@ =~= ""@);
        assert(model@.len() == 0 <==> model@ =~= ""@);
    }
    if text_eq(provider, "") || text_eq(model, "") || has_whitespace(provider) || has_whitespace(
        model,
    ) {
        return Err(protocol_error("OMP allowlist contains an invalid provider/model"));
    }
    models.insert(provider, model);
    Ok(())
}

/// Reads an allowlist: entries `provider/model` with commas between them.
pub fn parse_allowed_model_list(raw: &str) -> (r: Result<AllowedModels, HarnessServerError>)
    ensures
        error::agrees(r, spec_allowed_list(raw@)),
        r matches Ok(models) ==> models.wf(),
{
    let mut models = AllowedModels { entries: Vec::new() };
    assert(models@ =~= Set::<ModelPair>::empty());
    let ghost all = text::spec_split(raw@, ',');
    let ghost mut done: int = 0;
    let mut rest = raw;
    assert(all.skip(0) =~= all);
    assert(all.take(0) =~= Seq::<Seq<char>>::empty());
    loop
        invariant
            models.wf(),
            all == text::spec_split(raw@, ','),
            0 <= done < all.len(),
            all.skip(done) == text::spec_split(rest@, ','),
            spec_allowed_entries(all.take(done)) == Ok::<Set<ModelPair>, error::ErrorView>(
                models@,
            ),
        decreases rest@.len(),
    {
        proof {
            text::lemma_find(rest@, ',');
            assert(all.take(done + 1).drop_last() =~= all.take(done));
            assert(all.take(done + 1).last() == all[done]);
            assert(all.skip(done)[0] == all[done]);
            assert(all.skip(done + 1) =~= all.skip(done).skip(1));
        }
        match split_once(rest, ',') {
            Some((piece, tail)) => {
                proof {
                    let tail_pieces = text::spec_split(tail@, ',');
                    assert(text::spec_split(rest@, ',') == seq![piece@] + tail_pieces);
                    assert(all.skip(done).skip(1) =~= tail_pieces);
                    text::lemma_split_some(tail@, ',');
                }
                if let Err(e) = add_entry(&mut models, piece) {
                    proof {
                        lemma_entries_fail(all, done + 1);
                    }
                    return Err(e);
                }
                proof {
                    done = done + 1;
                }
                rest = tail;
            },
            None => {
                proof {
                    assert(text::spec_split(rest@, ',') == seq![rest@]);
                    assert(all.take(done + 1) =~= all);
                }
                if let Err(e) = add_entry(&mut models, rest) {
                    return Err(e);
                }
                if models.entries.len() == 0 {
                    assert(models@ =~= Set::<ModelPair>::empty());
                    return Err(protocol_error("OMP provider/model allowlist may not be empty"));
                }
                proof {
                    let first = (models.entries@[0].0@, models.entries@[0].1@);
                    assert(allowed_at(models.entries@, first, 0));
                    assert(models@.contains(first));
                }
                return Ok(models);
            },
        }
    }
}

/// Every model of an allowlist has a provider and a name, neither blank nor with white space in it,
/// and the provider has no slash.
pub proof fn law_allowed_models_are_well_named(raw: Seq<char>)
    ensures
        spec_allowed_list(raw) matches Ok(models) ==> forall|pair: ModelPair| #[trigger]
            models.contains(pair) ==> {
                &&& pair.0.len() > 0
                &&& pair.1.len() > 0
                &&& !spaced(pair.0)
                &&& !spaced(pair.1)
                &&& !pair.0.contains('/')
            },
{
    lemma_entries_well_named(text::spec_split(raw, ','));
}

proof fn lemma_entries_well_named(pieces: Seq<Seq<char>>)
    ensures
        spec_allowed_entries(pieces) matches Ok(models) ==> forall|pair: ModelPair| #[trigger]
            models.contains(pair) ==> {
                &&& pair.0.len() > 0
                &&& pair.1.len() > 0
                &&& !spaced(pair.0)
                &&& !spaced(pair.1)
                &&& !pair.0.contains('/')
            },
    decreases pieces.len(),
{
    if pieces.len() > 0 {
        lemma_entries_well_named(pieces.drop_last());
        text::lemma_find(text::spec_trim(pieces.last()), '/');
    }
}

// ---------------------------------------------------------------------------
// Session paths
// ---------------------------------------------------------------------------

/// What was found of a path: where it leads if something is there, and where its parent leads if
/// not. Following a path may fail, with a text that describes how.
#[derive(Debug)]
pub enum PathSeen {
    Present { canonical: Result<String, String> },
    Absent { canonical_parent: Result<String, String> },
}

/// The content of a [`PathSeen`].
pub enum SeenView {
    Present { canonical: Result<Seq<char>, Seq<char>> },
    Absent { canonical_parent: Result<Seq<char>, Seq<char>> },
}

/// The content of a text, or of the description of a failure.
pub open spec fn text_result(r: Result<String, String>) -> Result<Seq<char>, Seq<char>> {
    match r {
        Ok(s) => Ok(s@),
        Err(fault) => Err(fault@),
    }
}

impl View for PathSeen {
    type V = SeenView;

    open spec fn view(&self) -> SeenView {
        match self {
            PathSeen::Present { canonical } => SeenView::Present {
                canonical: text_result(*canonical),
            },
            PathSeen::Absent { canonical_parent } => SeenView::Absent {
                canonical_parent: text_result(*canonical_parent),
            },
        }
    }
}

/// Whether a path lies at or below a directory, component by component.
pub open spec fn lies_within(path: Seq<char>, root: Seq<char>) -> bool {
    path::within(path::spec_components(path), path::spec_components(root))
}

/// What the text of a session path alone decides.
pub open spec fn spec_check_session_path(root: Seq<char>, path: Seq<char>) -> Result<
    (),
    error::ErrorView,
> {
    if !path::spec_absolute(path) {
        Err(error::protocol_fault("OMP session path must be absolute"@))
    } else {
        match path::spec_normalize(path::spec_components(path)) {
            None => Err(error::protocol_fault("OMP session path escapes its root"@)),
            Some(normalized) => if path::within(normalized, path::spec_components(root)) {
                Ok(())
            } else {
                Err(error::protocol_fault("OMP session path escapes the operator session root"@))
            },
        }
    }
}

/// Checks the text of a session path, before anything is looked at.
pub fn check_session_path(root: &str, path: &str) -> (r: Result<(), HarnessServerError>)
    ensures
        error::agrees(r, spec_check_session_path(root@, path@)),
{
    if !is_absolute(path) {
        return Err(protocol_error("OMP session path must be absolute"));
    }
    let normalized = match normalize_without_symlinks(path) {
        Ok(normalized) => normalized,
        Err(e) => {
            return Err(e);
        },
    };
    let base = components(root);
    if !components_start_with(&normalized, &base) {
        return Err(protocol_error("OMP session path escapes the operator session root"));
    }
    Ok(())
}

/// Whether a path has a directory above it.
pub open spec fn has_parent(path: Seq<char>) -> bool {
    let all = path::spec_components(path);
    all.len() > 0 && !(all.last() is RootDir)
}

/// The session path that is used: where it leads if something is there, and itself if not. It must
/// lie below the root by its text and by where it leads.
pub open spec fn spec_contained_path(
    root: Seq<char>,
    path: Seq<char>,
    seen: SeenView,
) -> Result<Seq<char>, error::ErrorView> {
    match spec_check_session_path(root, path) {
        Err(e) => Err(e),
        Ok(_) => match seen {
            SeenView::Present { canonical } => match canonical {
                Err(fault) => Err(error::ErrorView::Io(fault)),
                Ok(target) => if lies_within(target, root) {
                    Ok(target)
                } else {
                    Err(
                        error::protocol_fault(
                            "OMP session path resolves outside the operator session root"@,
                        ),
                    )
                },
            },
            SeenView::Absent { canonical_parent } => if !has_parent(path) {
                Err(error::protocol_fault("OMP session path has no parent"@))
            } else {
                match canonical_parent {
                    Err(fault) => Err(error::ErrorView::Io(fault)),
                    Ok(parent) => if lies_within(parent, root) {
                        Ok(path)
                    } else {
                        Err(
                            error::protocol_fault(
                                "OMP session parent resolves outside the operator session root"@,
                            ),
                        )
                    },
                }
            },
        },
    }
}

/// Checks that a session path lies below the root, by its text and by where it leads.
pub fn validate_contained_session_path(root: &str, path: &str, seen: &PathSeen) -> (r: Result<
    String,
    HarnessServerError,
>)
    ensures
        error::agrees(r, spec_contained_path(root@, path@, seen@)),
{
    if let Err(e) = check_session_path(root, path) {
        return Err(e);
    }
    match seen {
        PathSeen::Present { canonical } => match canonical {
            Err(fault) => Err(HarnessServerError::Io(fault.clone())),
            Ok(target) => if starts_with(target.as_str(), root) {
                Ok(target.clone())
            } else {
                Err(
                    protocol_error("OMP session path resolves outside the operator session root"),
                )
            },
        },
        PathSeen::Absent { canonical_parent } => {
            let all = components(path);
            assert(path::parts(all@).len() == all@.len());
            assert(all@.len() > 0 ==> path::parts(all@).last() == all@.last()@);
            let parented = all.len() > 0 && match &all[all.len() - 1] {
                PathComponent::RootDir => false,
                _ => true,
            };
            if !parented {
                return Err(protocol_error("OMP session path has no parent"));
            }
            match canonical_parent {
                Err(fault) => Err(HarnessServerError::Io(fault.clone())),
                Ok(parent) => if starts_with(parent.as_str(), root) {
                    Ok(path.to_owned())
                } else {
                    Err(
                        protocol_error(
                            "OMP session parent resolves outside the operator session root",
                        ),
                    )
                },
            }
        },
    }
}

/// A session path that is accepted lies below the root: its text does once its parent components
/// are carried out, and so does what it leads to, or what its parent leads to.
pub proof fn law_accepted_path_is_contained(root: Seq<char>, path: Seq<char>, seen: SeenView)
    requires
        spec_contained_path(root, path, seen) is Ok,
    ensures
        path::spec_absolute(path),
        path::spec_normalize(path::spec_components(path)) matches Some(normalized)
            && path::is_normal(normalized) && path::within(
            normalized,
            path::spec_components(root),
        ),
        match seen {
            SeenView::Present { canonical } => canonical matches Ok(target) && lies_within(
                target,
                root,
            ) && spec_contained_path(root, path, seen) == Ok::<Seq<char>, error::ErrorView>(
                target,
            ),
            SeenView::Absent { canonical_parent } => canonical_parent matches Ok(parent)
                && lies_within(parent, root) && spec_contained_path(root, path, seen) == Ok::<
                Seq<char>,
                error::ErrorView,
            >(path),
        },
{
    path::lemma_root_in_front(path);
    path::law_normalized_has_no_detours(path::spec_components(path));
}

// ---------------------------------------------------------------------------
// The profile
// ---------------------------------------------------------------------------

/// The profile, once it was loaded.
#[derive(Debug)]
pub struct OmpProfile {
    pub allowed_models: AllowedModels,
    pub binary: String,
    pub session_root: String,
}

/// The content of an [`OmpProfile`].
pub struct ProfileView {
    pub allowed_models: Set<ModelPair>,
    pub binary: Seq<char>,
    pub session_root: Seq<char>,
}

impl View for OmpProfile {
    type V = ProfileView;

    open spec fn view(&self) -> ProfileView {
        ProfileView {
            allowed_models: self.allowed_models@,
            binary: self.binary@,
            session_root: self.session_root@,
        }
    }
}

/// What a variable in the environment of the runtime is set to.
#[derive(Debug)]
pub enum EnvRule {
    /// What it is in the environment of this program, where it is set there.
    Inherit { name: String },
    /// A given value.
    Assign { name: String, value: String },
}

/// The content of an [`EnvRule`].
pub enum EnvRuleView {
    Inherit { name: Seq<char> },
    Assign { name: Seq<char>, value: Seq<char> },
}

impl View for EnvRule {
    type V = EnvRuleView;

    open spec fn view(&self) -> EnvRuleView {
        match self {
            EnvRule::Inherit { name } => EnvRuleView::Inherit { name: name@ },
            EnvRule::Assign { name, value } => EnvRuleView::Assign { name: name@, value: value@ },
        }
    }
}

/// The content of a list of rules.
pub open spec fn rules(env: Seq<EnvRule>) -> Seq<EnvRuleView> {
    env.map_values(|rule: EnvRule| rule@)
}

/// How a program is started: with nothing in its environment but what the rules give.
#[derive(Debug)]
pub struct LaunchPlan {
    pub program: String,
    /// Where it is started, if not where this program runs.
    pub directory: Option<String>,
    pub env: Vec<EnvRule>,
    pub args: Vec<String>,
}

/// The content of a [`LaunchPlan`].
#[verifier::ext_equal]
pub struct LaunchView {
    pub program: Seq<char>,
    pub directory: Option<Seq<char>>,
    pub env: Seq<EnvRuleView>,
    pub args: Seq<Seq<char>>,
}

impl View for LaunchPlan {
    type V = LaunchView;

    open spec fn view(&self) -> LaunchView {
        LaunchView {
            program: self.program@,
            directory: match self.directory {
                Some(directory) => Some(directory@),
                None => None,
            },
            env: rules(self.env@),
            args: text::texts(self.args@),
        }
    }
}

/// The rules that hand on the approved variables.
pub open spec fn inherited_env() -> Seq<EnvRuleView> {
    spec_approved_env().map_values(|name: Seq<char>| EnvRuleView::Inherit { name })
}

/// How the runtime is asked for its version.
pub open spec fn spec_version_plan(binary: Seq<char>) -> LaunchView {
    LaunchView {
        program: binary,
        directory: None,
        env: inherited_env(),
        args: seq!["--version"@],
    }
}

/// How the runtime is started.
pub open spec fn spec_command(profile: ProfileView, cwd: Seq<char>) -> LaunchView {
    LaunchView {
        program: profile.binary,
        directory: Some(cwd),
        env: inherited_env().push(
            EnvRuleView::Assign { name: "PI_CODING_AGENT_DIR"@, value: profile.session_root },
        ),
        args: seq![
            "--mode"@,
            "rpc"@,
            "--no-extensions"@,
            "--no-skills"@,
            "--no-rules"@,
            "--no-title"@,
            "--session-dir"@,
            profile.session_root,
            "--tools"@,
            text::spec_join(spec_safe_tools(), ","@),
        ],
    }
}

fn write_inherited_env() -> (env: Vec<EnvRule>)
    ensures
        rules(env@) == inherited_env(),
{
    let names = approved_env();
    let mut env: Vec<EnvRule> = Vec::new();
    let mut i: usize = 0;
    while i < names.len()
        invariant
            i <= names@.len(),
            text::texts(names@) == spec_approved_env(),
            rules(env@) == inherited_env().take(i as int),
        decreases names@.len() - i,
    {
        assert(text::texts(names@)[i as int] == names@[i as int]@);
        let ghost before = env@;
        env.push(EnvRule::Inherit { name: names[i].clone() });
        proof {
            assert(text::texts(names@).len() == names@.len());
            assert(rules(env@) =~= rules(before).push(inherited_env()[i as int]));
            assert(inherited_env().take(i + 1) =~= inherited_env().take(i as int).push(
                inherited_env()[i as int],
            ));
        }
        i += 1;
    }
    assert(text::texts(names@).len() == names@.len());
    assert(inherited_env().take(i as int) =~= inherited_env());
    env
}

/// How the runtime is asked for its version.
pub fn version_plan(binary: &str) -> (plan: LaunchPlan)
    ensures
        plan@ == spec_version_plan(binary@),
{
    let mut args: Vec<String> = Vec::new();
    push_text(&mut args, "--version");
    let plan = LaunchPlan {
        program: binary.to_owned(),
        directory: None,
        env: write_inherited_env(),
        args,
    };
    assert(plan@.args =~= spec_version_plan(binary@).args);
    plan
}

/// How a set of names is shown.
pub open spec fn spec_listing(set: Set<Seq<char>>) -> Seq<char> {
    "{"@ + text::spec_join(
        names::in_order(set).map_values(|name: Seq<char>| outside::quoted(name)),
        ", "@,
    ) + "}"@
}

fn listing(set: &NameSet) -> (r: String)
    requires
        set.wf(),
    ensures
        r@ == spec_listing(set@),
{
    let ghost want = names::in_order(set@).map_values(|name: Seq<char>| outside::quoted(name));
    let mut shown: Vec<String> = Vec::new();
    proof {
        set.lemma_in_order();
    }
    let mut i: usize = 0;
    while i < set.names.len()
        invariant
            i <= set.names@.len(),
            text::texts(set.names@) == names::in_order(set@),
            want == names::in_order(set@).map_values(
                |name: Seq<char>| outside::quoted(name),
            ),
            text::texts(shown@) == want.take(i as int),
        decreases set.names@.len() - i,
    {
        assert(text::texts(set.names@)[i as int] == set.names@[i as int]@);
        let item = quote(set.names[i].as_str());
        let ghost before = shown@;
        shown.push(item);
        proof {
            assert(text::texts(set.names@).len() == set.names@.len());
            assert(text::texts(shown@) =~= text::texts(before).push(want[i as int]));
            assert(want.take(i + 1) =~= want.take(i as int).push(want[i as int]));
        }
        i += 1;
    }
    assert(text::texts(set.names@).len() == set.names@.len());
    assert(want.take(i as int) =~= want);
    let inner = join(&shown, ", ");
    let mut r = "{".to_owned();
    r.append(inner.as_str());
    r.append("}");
    r
}

/// Whether every tool that the runtime lists has a name.
pub open spec fn all_named(tools: Seq<json::JsonView>) -> bool {
    forall|i: int| 0 <= i < tools.len() ==> (#[trigger] tools[i]).text("name"@) is Some
}

/// The names of the tools that the runtime lists.
pub open spec fn tool_names(tools: Seq<json::JsonView>) -> Set<Seq<char>> {
    Set::new(
        |name: Seq<char>|
            exists|i: int| 0 <= i < tools.len() && (#[trigger] tools[i]).text("name"@) == Some(name),
    )
}

/// Whether a state of the runtime has the queue modes of the profile.
pub open spec fn modes_match(state: json::JsonView) -> bool {
    &&& state.text("steeringMode"@) == Some("one-at-a-time"@)
    &&& state.text("followUpMode"@) == Some("one-at-a-time"@)
    &&& state.text("interruptMode"@) == Some("immediate"@)
}

/// What a state of the runtime says of itself, short of where its session file leads: the file, if
/// the state is that of the profile.
pub open spec fn spec_check_state(state: json::JsonView) -> Result<Seq<char>, error::ErrorView> {
    if !modes_match(state) {
        Err(error::protocol_fault("OMP effective queue modes do not match centaur-safe"@))
    } else {
        match state.get("dumpTools"@) {
            Some(json::JsonView::List(tools)) => if !all_named(tools) {
                Err(error::protocol_fault("OMP dumpTools entry omitted name"@))
            } else if tool_names(tools) != spec_safe_tools().to_set() {
                Err(
                    error::protocol_fault(
                        "OMP effective tools differ from centaur-safe: expected "@ + spec_listing(
                            spec_safe_tools().to_set(),
                        ) + ", observed "@ + spec_listing(tool_names(tools)),
                    ),
                )
            } else {
                match state.text("sessionFile"@) {
                    Some(file) => Ok(file),
                    None => Err(error::protocol_fault("OMP get_state omitted sessionFile"@)),
                }
            },
            _ => Err(error::protocol_fault("OMP get_state omitted dumpTools"@)),
        }
    }
}

/// Whether a state of the runtime is that of the profile, given where its session file leads.
pub open spec fn spec_verify_state(
    profile: ProfileView,
    state: json::JsonView,
    seen: SeenView,
) -> Result<(), error::ErrorView> {
    match spec_check_state(state) {
        Err(e) => Err(e),
        Ok(file) => match spec_contained_path(profile.session_root, file, seen) {
            Err(e) => Err(e),
            Ok(_) => Ok(()),
        },
    }
}

/// The tools of the profile, as a set.
fn safe_tool_set() -> (set: NameSet)
    ensures
        set.wf(),
        set@ == spec_safe_tools().to_set(),
{
    let tools = safe_tools();
    let mut set = NameSet::new();
    let mut i: usize = 0;
    assert(spec_safe_tools().take(0).to_set() =~= Set::<Seq<char>>::empty());
    while i < tools.len()
        invariant
            i <= tools@.len(),
            text::texts(tools@) == spec_safe_tools(),
            set.wf(),
            set@ == spec_safe_tools().take(i as int).to_set(),
        decreases tools@.len() - i,
    {
        let ghost all = spec_safe_tools();
        assert(text::texts(tools@)[i as int] == tools@[i as int]@);
        set.insert(tools[i].as_str());
        proof {
            assert(all.take(i + 1) =~= all.take(i as int).push(all[i as int]));
            assert forall|s: Seq<char>| #[trigger] all.take(i + 1).to_set().contains(s)
                == all.take(i as int).to_set().insert(all[i as int]).contains(s) by {
                let shorter = all.take(i as int);
                let longer = all.take(i + 1);
                if longer.contains(s) {
                    let k = choose|k: int| 0 <= k < longer.len() && longer[k] == s;
                    if k < i {
                        assert(shorter[k] == s);
                    }
                }
                if shorter.contains(s) {
                    let k = choose|k: int| 0 <= k < shorter.len() && shorter[k] == s;
                    assert(longer[k] == s);
                }
                assert(longer[i as int] == all[i as int]);
            }
            assert(all.take(i + 1).to_set() =~= all.take(i as int).to_set().insert(all[i as int]));
        }
        i += 1;
    }
    assert(text::texts(tools@).len() == tools@.len());
    assert(spec_safe_tools().take(i as int) =~= spec_safe_tools());
    set
}

/// The names of the tools that the runtime lists, if each has one.
fn observed_tools(tools: &Vec<Json>) -> (r: Option<NameSet>)
    ensures
        match r {
            Some(set) => {
                &&& set.wf()
                &&& all_named(json::items_content(tools@))
                &&& set@ == tool_names(json::items_content(tools@))
            },
            None => !all_named(json::items_content(tools@)),
        },
{
    let ghost all = json::items_content(tools@);
    proof {
        json::lemma_items_content(tools@);
    }
    let mut set = NameSet::new();
    let mut i: usize = 0;
    assert(tool_names(all.take(0)) =~= Set::<Seq<char>>::empty());
    while i < tools.len()
        invariant
            i <= tools@.len(),
            all == json::items_content(tools@),
            all.len() == tools@.len(),
            forall|j: int| 0 <= j < all.len() ==> #[trigger] all[j] == tools@[j].content(),
            forall|j: int| 0 <= j < i ==> (#[trigger] all[j]).text("name"@) is Some,
            set.wf(),
            set@ == tool_names(all.take(i as int)),
        decreases tools@.len() - i,
    {
        assert(all[i as int] == tools@[i as int]@);
        match tools[i].text("name") {
            None => {
                assert(all[i as int].text("name"@) is None);
                return None;
            },
            Some(name) => {
                set.insert(name);
                proof {
                    let shorter = all.take(i as int);
                    let longer = all.take(i + 1);
                    assert forall|s: Seq<char>| #[trigger] tool_names(longer).contains(s)
                        == tool_names(shorter).insert(name@).contains(s) by {
                        if exists|k: int|
                            0 <= k < longer.len() && (#[trigger] longer[k]).text("name"@) == Some(
                                s,
                            ) {
                            let k = choose|k: int|
                                0 <= k < longer.len() && (#[trigger] longer[k]).text("name"@)
                                    == Some(s);
                            if k < i {
                                assert(shorter[k] == longer[k]);
                            }
                        }
                        if exists|k: int|
                            0 <= k < shorter.len() && (#[trigger] shorter[k]).text("name"@)
                                == Some(s) {
                            let k = choose|k: int|
                                0 <= k < shorter.len() && (#[trigger] shorter[k]).text("name"@)
                                    == Some(s);
                            assert(longer[k] == shorter[k]);
                        }
                        assert(longer[i as int].text("name"@) == Some(name@));
                    }
                    assert(tool_names(longer) =~= tool_names(shorter).insert(name@));
                }
            },
        }
        i += 1;
    }
    assert(all.take(i as int) =~= all);
    Some(set)
}

/// Checks what a state of the runtime says of itself, and gives its session file.
pub fn check_state(state: &Json) -> (r: Result<String, HarnessServerError>)
    ensures
        error::agrees(r, spec_check_state(state@)),
{
    if !option_eq(state.text("steeringMode"), "one-at-a-time") || !option_eq(
        state.text("followUpMode"),
        "one-at-a-time",
    ) || !option_eq(state.text("interruptMode"), "immediate") {
        return Err(protocol_error("OMP effective queue modes do not match centaur-safe"));
    }
    let tools = match state.get("dumpTools") {
        Some(Json::List(tools)) => tools,
        _ => {
            return Err(protocol_error("OMP get_state omitted dumpTools"));
        },
    };
    let observed = match observed_tools(tools) {
        Some(observed) => observed,
        None => {
            return Err(protocol_error("OMP dumpTools entry omitted name"));
        },
    };
    let expected = safe_tool_set();
    if !observed.same(&expected) {
        let wanted = listing(&expected);
        let found = listing(&observed);
        let mut message = concat(
            "OMP effective tools differ from centaur-safe: expected ",
            wanted.as_str(),
        );
        message.append(", observed ");
        message.append(found.as_str());
        return Err(protocol_error(message.as_str()));
    }
    match state.text("sessionFile") {
        Some(file) => Ok(file.to_owned()),
        None => Err(protocol_error("OMP get_state omitted sessionFile")),
    }
}

impl OmpProfile {
    pub open spec fn wf(self) -> bool {
        self.allowed_models.wf()
    }

    /// How the runtime is started in a directory.
    pub fn command(&self, cwd: &str) -> (plan: LaunchPlan)
        ensures
            plan@ == spec_command(self@, cwd@),
    {
        let mut env = write_inherited_env();
        env.push(
            EnvRule::Assign {
                name: "PI_CODING_AGENT_DIR".to_owned(),
                value: self.session_root.clone(),
            },
        );
        let mut args: Vec<String> = Vec::new();
        push_text(&mut args, "--mode");
        push_text(&mut args, "rpc");
        push_text(&mut args, "--no-extensions");
        push_text(&mut args, "--no-skills");
        push_text(&mut args, "--no-rules");
        push_text(&mut args, "--no-title");
        push_text(&mut args, "--session-dir");
        push_text(&mut args, self.session_root.as_str());
        push_text(&mut args, "--tools");
        let tools = safe_tools();
        push_text(&mut args, join(&tools, ",").as_str());
        let plan = LaunchPlan {
            program: self.binary.clone(),
            directory: Some(cwd.to_owned()),
            env,
            args,
        };
        assert(plan@.env =~= spec_command(self@, cwd@).env);
        assert(plan@.args =~= spec_command(self@, cwd@).args);
        plan
    }

    /// Checks that the operator allows a model.
    pub fn verify_allowed_model(&self, provider: &str, model: &str) -> (r: Result<
        (),
        HarnessServerError,
    >)
        ensures
            error::agrees(r, spec_verify_allowed_model(self@, provider@, model@)),
    {
        if !self.allowed_models.allows(provider, model) {
            let mut message = concat("OMP provider/model ", provider);
            message.append("/");
            message.append(model);
            message.append(" is not in the operator allowlist");
            return Err(protocol_error(message.as_str()));
        }
        Ok(())
    }

    /// The directory below which the sessions lie.
    pub fn session_root(&self) -> (root: &str)
        ensures
            root@ == self@.session_root,
    {
        self.session_root.as_str()
    }

    /// The directory in which the mappings from threads to sessions lie.
    pub fn mapping_dir(&self) -> (dir: String)
        ensures
            dir@ == spec_mapping_dir(self@),
    {
        join_path(self.session_root.as_str(), "mappings")
    }

    /// Checks that a state of the runtime is that of the profile, given where its session file
    /// leads.
    pub fn verify_state(&self, state: &Json, seen: &PathSeen) -> (r: Result<
        (),
        HarnessServerError,
    >)
        ensures
            error::agrees(r, spec_verify_state(self@, state@, seen@)),
    {
        let file = match check_state(state) {
            Ok(file) => file,
            Err(e) => {
                return Err(e);
            },
        };
        match validate_contained_session_path(self.session_root.as_str(), file.as_str(), seen) {
            Ok(_) => Ok(()),
            Err(e) => Err(e),
        }
    }
}

/// Whether the operator allows a model.
pub open spec fn spec_verify_allowed_model(
    profile: ProfileView,
    provider: Seq<char>,
    model: Seq<char>,
) -> Result<(), error::ErrorView> {
    if profile.allowed_models.contains((provider, model)) {
        Ok(())
    } else {
        Err(
            error::protocol_fault(
                "OMP provider/model "@ + provider + "/"@ + model
                    + " is not in the operator allowlist"@,
            ),
        )
    }
}

/// The directory in which the mappings from threads to sessions lie.
pub open spec fn spec_mapping_dir(profile: ProfileView) -> Seq<char> {
    path::spec_join_path(profile.session_root, "mappings"@)
}

/// The runtime sees no variable of this program but the approved ones, and nothing is set anew but
/// its directory.
pub proof fn law_only_approved_environment(profile: ProfileView, cwd: Seq<char>, i: int)
    requires
        0 <= i < spec_command(profile, cwd).env.len(),
    ensures
        match spec_command(profile, cwd).env[i] {
            EnvRuleView::Inherit { name } => spec_approved_env().contains(name),
            EnvRuleView::Assign { name, value } => name == "PI_CODING_AGENT_DIR"@ && value
                == profile.session_root,
        },
{
    if i < spec_approved_env().len() {
        assert(spec_command(profile, cwd).env[i] == inherited_env()[i]);
        assert(spec_approved_env().contains(spec_approved_env()[i]));
    }
}

} // verus!
