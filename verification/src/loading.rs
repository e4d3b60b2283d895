//! Loading the profile: the checks that stand between the operator's settings and a profile that
//! can be used.

use vstd::prelude::*;

use crate::error;
use crate::error::{protocol_error, HarnessServerError};
use crate::path;
use crate::path::{components, is_absolute};
use crate::profile;
use crate::profile::{parse_allowed_model_list, AllowedModels, ModelPair, OmpProfile, ProfileView};
use crate::text;
use crate::text::{concat, option_eq, text_eq, trim};

verus! {

/// The directory of the sessions where the operator names none.
pub const DEFAULT_SESSION_ROOT: &'static str = "/home/agent/.omp/centaur-sessions";

/// A binary that may be asked for its version: one that the system will search for by its name, or
/// one that was found to be an executable file.
#[derive(Debug)]
pub struct CheckedBinary {
    path: String,
}

/// A binary that was asked for its version and gave the right one.
#[derive(Debug)]
pub struct VerifiedBinary {
    path: String,
}

impl View for CheckedBinary {
    type V = Seq<char>;

    closed spec fn view(&self) -> Seq<char> {
        self.path@
    }
}

impl View for VerifiedBinary {
    type V = Seq<char>;

    closed spec fn view(&self) -> Seq<char> {
        self.path@
    }
}

impl CheckedBinary {
    /// The path of the binary.
    pub fn path(&self) -> (path: &str)
        ensures
            path@ == self@,
    {
        self.path.as_str()
    }
}

/// The binary that the operator chose.
#[derive(Debug)]
pub enum BinaryChoice {
    /// A name to search for.
    Search(CheckedBinary),
    /// A path to follow.
    Locate(String),
}

/// The content of a [`BinaryChoice`].
pub enum BinaryChoiceView {
    Search(Seq<char>),
    Locate(Seq<char>),
}

impl View for BinaryChoice {
    type V = BinaryChoiceView;

    open spec fn view(&self) -> BinaryChoiceView {
        match self {
            BinaryChoice::Search(binary) => BinaryChoiceView::Search(binary@),
            BinaryChoice::Locate(path) => BinaryChoiceView::Locate(path@),
        }
    }
}

/// The binary that the settings of the operator choose.
pub open spec fn spec_choose_binary(
    enabled: Option<Seq<char>>,
    binary: Option<Seq<char>>,
) -> Result<BinaryChoiceView, error::ErrorView> {
    if enabled != Some("1"@) {
        Err(
            error::protocol_fault(
                "OMP harness is disabled; the operator must set CENTAUR_OMP_ENABLED=1"@,
            ),
        )
    } else {
        let path = match binary {
            Some(path) => path,
            None => "omp"@,
        };
        if path::spec_components(path).len() > 1 {
            Ok(BinaryChoiceView::Locate(path))
        } else {
            Ok(BinaryChoiceView::Search(path))
        }
    }
}

/// Chooses the binary, if the operator has enabled the runtime.
pub fn choose_binary(enabled: Option<&str>, binary: Option<&str>) -> (r: Result<
    BinaryChoice,
    HarnessServerError,
>)
    ensures
        error::agrees(r, spec_choose_binary(text::optional(enabled), text::optional(binary))),
{
    if !option_eq(enabled, "1") {
        return Err(
            protocol_error("OMP harness is disabled; the operator must set CENTAUR_OMP_ENABLED=1"),
        );
    }
    let path = match binary {
        Some(path) => path,
        None => "omp",
    };
    let all = components(path);
    assert(path::parts(all@).len() == all@.len());
    if all.len() > 1 {
        Ok(BinaryChoice::Locate(path.to_owned()))
    } else {
        Ok(BinaryChoice::Search(CheckedBinary { path: path.to_owned() }))
    }
}

/// Takes the place to which the path of the binary leads.
pub fn locate_binary(canonical: Result<String, String>) -> (r: Result<String, HarnessServerError>)
    ensures
        match (r, canonical) {
            (Ok(path), Ok(found)) => path@ == found@,
            (Err(e), Err(fault)) => e@ == error::ErrorView::Protocol(
                "OMP profile centaur-safe binary is unavailable: "@ + fault@,
            ),
            _ => false,
        },
{
    match canonical {
        Ok(path) => Ok(path),
        Err(fault) => Err(
            HarnessServerError::Protocol(
                concat("OMP profile centaur-safe binary is unavailable: ", fault.as_str()),
            ),
        ),
    }
}

/// The kind and the permission bits of a file.
#[derive(Debug, Clone, Copy)]
pub struct ExecutableFacts {
    pub is_file: bool,
    pub mode: u32,
}

/// Whether any of the three execute permissions is given.
pub open spec fn executable_mode(mode: u32) -> bool {
    mode & 0o111u32 != 0
}

/// What stands against a binary, given its kind and permissions.
pub open spec fn spec_validate_executable(facts: Result<ExecutableFacts, Seq<char>>) -> Result<
    (),
    error::ErrorView,
> {
    match facts {
        Err(fault) => Err(error::ErrorView::Io(fault)),
        Ok(facts) => if !facts.is_file {
            Err(error::protocol_fault("OMP profile binary is not a regular file"@))
        } else if !executable_mode(facts.mode) {
            Err(error::protocol_fault("OMP profile binary is not executable"@))
        } else {
            Ok(())
        },
    }
}

/// The content of the facts about a file, or of the description of a failure.
pub open spec fn facts_result(r: Result<ExecutableFacts, String>) -> Result<
    ExecutableFacts,
    Seq<char>,
> {
    match r {
        Ok(facts) => Ok(facts),
        Err(fault) => Err(fault@),
    }
}

/// Checks that a binary is an executable file.
pub fn validate_executable(path: String, facts: Result<ExecutableFacts, String>) -> (r: Result<
    CheckedBinary,
    HarnessServerError,
>)
    ensures
        match (r, spec_validate_executable(facts_result(facts))) {
            (Ok(binary), Ok(_)) => binary@ == path@,
            (Err(e), Err(fault)) => e@ == fault,
            _ => false,
        },
{
    match facts {
        Err(fault) => Err(HarnessServerError::Io(fault)),
        Ok(facts) => {
            if !facts.is_file {
                return Err(protocol_error("OMP profile binary is not a regular file"));
            }
            if facts.mode & 0o111u32 == 0 {
                return Err(protocol_error("OMP profile binary is not executable"));
            }
            Ok(CheckedBinary { path })
        },
    }
}

/// What came of asking a binary for its version.
#[derive(Debug)]
pub struct VersionRun {
    pub success: bool,
    pub stdout: String,
}

/// What stands against a binary, given what came of asking it for its version.
pub open spec fn spec_verify_version(run: Result<(bool, Seq<char>), Seq<char>>) -> Result<
    (),
    error::ErrorView,
> {
    match run {
        Err(fault) => Err(
            error::protocol_fault("failed to execute OMP version check: "@ + fault),
        ),
        Ok((success, stdout)) => if success && text::spec_trim(stdout) == "omp/18.3.0"@ {
            Ok(())
        } else {
            Err(error::protocol_fault("OMP binary version mismatch: expected omp/18.3.0"@))
        },
    }
}

/// The content of what came of asking for the version.
pub open spec fn run_result(r: Result<VersionRun, String>) -> Result<(bool, Seq<char>), Seq<char>> {
    match r {
        Ok(run) => Ok((run.success, run.stdout@)),
        Err(fault) => Err(fault@),
    }
}

/// Checks that a binary has the version that the profile is made for.
pub fn verify_binary_version(binary: CheckedBinary, run: Result<VersionRun, String>) -> (r: Result<
    VerifiedBinary,
    HarnessServerError,
>)
    ensures
        match (r, spec_verify_version(run_result(run))) {
            (Ok(verified), Ok(_)) => verified@ == binary@,
            (Err(e), Err(fault)) => e@ == fault,
            _ => false,
        },
{
    match run {
        Err(fault) => {
            let message = concat("failed to execute OMP version check: ", fault.as_str());
            Err(protocol_error(message.as_str()))
        },
        Ok(run) => {
            if !run.success || !text_eq(trim(run.stdout.as_str()), "omp/18.3.0") {
                return Err(
                    protocol_error("OMP binary version mismatch: expected omp/18.3.0"),
                );
            }
            Ok(VerifiedBinary { path: binary.path })
        },
    }
}

/// The version that the binary must give is that of the profile.
pub proof fn law_version_is_that_of_the_profile()
    ensures
        "omp/18.3.0"@ == "omp/"@ + profile::OMP_VERSION@,
        "OMP binary version mismatch: expected omp/18.3.0"@
            == "OMP binary version mismatch: expected omp/"@ + profile::OMP_VERSION@,
{
    reveal_strlit("omp/18.3.0");
    reveal_strlit("omp/");
    reveal_strlit("18.3.0");
    reveal_strlit("OMP binary version mismatch: expected omp/18.3.0");
    reveal_strlit("OMP binary version mismatch: expected omp/");
    assert("omp/18.3.0"@ =~= "omp/"@ + "18.3.0"@);
    assert("OMP binary version mismatch: expected omp/18.3.0"@
        =~= "OMP binary version mismatch: expected omp/"@ + "18.3.0"@);
}

/// The models and the session directory that the operator chose.
#[derive(Debug)]
pub struct RootChoice {
    pub models: AllowedModels,
    pub root: String,
}

impl View for RootChoice {
    type V = (Set<ModelPair>, Seq<char>);

    open spec fn view(&self) -> (Set<ModelPair>, Seq<char>) {
        (self.models@, self.root@)
    }
}

/// The models and the session directory that the settings of the operator choose.
pub open spec fn spec_choose_root(
    models: Option<Seq<char>>,
    root: Option<Seq<char>>,
) -> Result<(Set<ModelPair>, Seq<char>), error::ErrorView> {
    match models {
        None => Err(
            error::protocol_fault("CENTAUR_OMP_ALLOWED_MODELS is required when OMP is enabled"@),
        ),
        Some(raw) => match profile::spec_allowed_list(raw) {
            Err(e) => Err(e),
            Ok(allowed) => {
                let root = match root {
                    Some(root) => root,
                    None => "/home/agent/.omp/centaur-sessions"@,
                };
                if path::spec_absolute(root) {
                    Ok((allowed, root))
                } else {
                    Err(error::protocol_fault("OMP session root must be absolute"@))
                }
            },
        },
    }
}

/// Chooses the models and the session directory.
pub fn choose_root(models: Option<&str>, root: Option<&str>) -> (r: Result<
    RootChoice,
    HarnessServerError,
>)
    ensures
        error::agrees(r, spec_choose_root(text::optional(models), text::optional(root))),
        r matches Ok(choice) ==> choice.models.wf(),
{
    let raw = match models {
        Some(raw) => raw,
        None => {
            return Err(
                protocol_error("CENTAUR_OMP_ALLOWED_MODELS is required when OMP is enabled"),
            );
        },
    };
    let allowed = match parse_allowed_model_list(raw) {
        Ok(allowed) => allowed,
        Err(e) => {
            return Err(e);
        },
    };
    let root = match root {
        Some(root) => root,
        None => DEFAULT_SESSION_ROOT,
    };
    if !is_absolute(root) {
        return Err(protocol_error("OMP session root must be absolute"));
    }
    Ok(RootChoice { models: allowed, root: root.to_owned() })
}

/// Refuses a session directory that is a symbolic link. Where nothing could be found out of it,
/// nothing stands against it.
pub fn check_root_link(is_symlink: Option<bool>) -> (r: Result<(), HarnessServerError>)
    ensures
        error::agrees(
            r,
            if is_symlink == Some(true) {
                Err(error::protocol_fault("OMP session root may not be a symlink"@))
            } else {
                Ok(())
            },
        ),
{
    match is_symlink {
        Some(true) => Err(protocol_error("OMP session root may not be a symlink")),
        _ => Ok(()),
    }
}

impl OmpProfile {
    /// The profile with a binary of the right version, the models of the operator, and the place to
    /// which the path of the session directory leads.
    pub fn with_binary(
        binary: VerifiedBinary,
        models: AllowedModels,
        canonical_root: String,
    ) -> (profile: OmpProfile)
        requires
            models.wf(),
        ensures
            profile.wf(),
            profile@ == (ProfileView {
                allowed_models: models@,
                binary: binary@,
                session_root: canonical_root@,
            }),
    {
        OmpProfile {
            allowed_models: models,
            binary: binary.path,
            session_root: canonical_root,
        }
    }
}

/// Without the operator's switch nothing is chosen, whatever else is set.
pub proof fn law_disabled_unless_enabled(enabled: Option<Seq<char>>, binary: Option<Seq<char>>)
    requires
        enabled != Some("1"@),
    ensures
        spec_choose_binary(enabled, binary) is Err,
{
}

} // verus!
