//! What is recorded of a session, where, and what is accepted of it again; and how a bridge is set up.

use vstd::prelude::*;
use vstd::utf8::*;

use crate::error;
use crate::ledger;
use crate::loading;
use crate::loading::{BinaryChoiceView, ExecutableFacts};
use crate::outside;
use crate::path;
use crate::persistence;
use crate::persistence::{MappingFileView, MappingView, MetadataView, SaveView};
use crate::profile;
use crate::profile::{ProfileView, SeenView};
use crate::server;
use crate::text;

verus! {

// ---------------------------------------------------------------------------
// Mappings
// ---------------------------------------------------------------------------

/// Whether a mapping is one of a thread, in the form, for the profile and for the version of the
/// runtime that are in use, and names a session.
pub open spec fn is_current(mapping: MappingView, thread_id: Seq<char>) -> bool {
    &&& mapping.schema_version == 1
    &&& mapping.thread_id == thread_id
    &&& mapping.profile_id == "centaur-safe"@
    &&& mapping.omp_version == "18.3.0"@
    &&& text::spec_trim(mapping.session_id).len() > 0
}

/// A mapping is valid just if it is a current one of the thread and its session lies where it may.
pub proof fn law_valid_mappings(
    profile: ProfileView,
    thread_id: Seq<char>,
    mapping: MappingView,
    seen: SeenView,
)
    ensures
        persistence::spec_validate_mapping(profile, thread_id, mapping, seen) is Ok <==> is_current(
            mapping,
            thread_id,
        ) && profile::spec_contained_path(profile.session_root, mapping.session_file, seen) is Ok,
        !is_current(mapping, thread_id) ==> persistence::spec_validate_mapping(
            profile,
            thread_id,
            mapping,
            seen,
        ) == Err::<(), error::ErrorView>(
            error::protocol_fault(
                "OMP resume mapping does not match thread, profile, or runtime version"@,
            ),
        ),
{
}

/// Whether a file is a regular one of no more than 32768 bytes and no link, and its contents, no
/// longer than that, read as a mapping.
pub open spec fn holds_mapping(file: MappingFileView, mapping: MappingView) -> bool {
    &&& file.is_symlink != Some(true)
    &&& file.metadata matches MetadataView::Found(facts)
    &&& facts.is_file && facts.len <= 32768
    &&& file.read matches Ok(bytes)
    &&& bytes.len() <= 32768
    &&& file.parsed == Ok::<MappingView, Seq<char>>(mapping)
}

/// A mapping is loaded just if the file holds it, it is a current one of the thread, and its session
/// lies where it may.
pub proof fn law_loaded_mappings(
    profile: ProfileView,
    thread_id: Seq<char>,
    file: MappingFileView,
    mapping: MappingView,
)
    ensures
        persistence::spec_load(profile, thread_id, file) == Ok::<
            Option<MappingView>,
            error::ErrorView,
        >(Some(mapping)) <==> holds_mapping(file, mapping) && is_current(mapping, thread_id)
            && profile::spec_contained_path(
            profile.session_root,
            mapping.session_file,
            file.session,
        ) is Ok,
{
}

/// Nothing is loaded, without an error, just if there is no such file; then a resume is refused for
/// the thread.
pub proof fn law_missing_mappings(
    profile: ProfileView,
    thread_id: Seq<char>,
    file: MappingFileView,
)
    ensures
        persistence::spec_load(profile, thread_id, file) == Ok::<
            Option<MappingView>,
            error::ErrorView,
        >(None) <==> file.is_symlink != Some(true) && file.metadata == MetadataView::NotFound,
        persistence::spec_load_resume(thread_id, Ok(None)) == Err::<MappingView, error::ErrorView>(
            error::protocol_fault(
                "OMP resume mapping for thread "@ + thread_id + " is unavailable"@,
            ),
        ),
        forall|mapping: MappingView|
            #[trigger] persistence::spec_load_resume(thread_id, Ok(Some(mapping))) == Ok::<
                MappingView,
                error::ErrorView,
            >(mapping),
        forall|e: error::ErrorView|
            #[trigger] persistence::spec_load_resume(thread_id, Err(e)) == Err::<
                MappingView,
                error::ErrorView,
            >(e),
{
}

/// A file that holds no mapping is refused with what is wrong with it first: that it is a link, that
/// nothing is known of it, that it is not regular or too large, that it cannot be read, that it grew
/// too large, or that it does not read as a mapping.
pub proof fn law_refused_files_of_mappings(
    profile: ProfileView,
    thread_id: Seq<char>,
    file: MappingFileView,
)
    ensures
        ({
            let loaded = persistence::spec_load(profile, thread_id, file);
            let refused = |message: Seq<char>|
                Err::<Option<MappingView>, error::ErrorView>(error::protocol_fault(message));
            if file.is_symlink == Some(true) {
                loaded == refused("OMP session mapping may not be a symlink"@)
            } else {
                match file.metadata {
                    MetadataView::NotFound => true,
                    MetadataView::Failed(fault) => loaded == Err::<
                        Option<MappingView>,
                        error::ErrorView,
                    >(error::ErrorView::Io(fault)),
                    MetadataView::Found(facts) => if !facts.is_file || facts.len > 32768 {
                        loaded == refused("OMP resume mapping is not a bounded regular file"@)
                    } else {
                        match file.read {
                            Err(fault) => loaded == Err::<Option<MappingView>, error::ErrorView>(
                                error::ErrorView::Io(fault),
                            ),
                            Ok(bytes) => if bytes.len() > 32768 {
                                loaded == refused("OMP resume mapping exceeds its size limit"@)
                            } else {
                                file.parsed matches Err(fault) ==> loaded == refused(
                                    "OMP resume mapping is invalid: "@ + fault,
                                )
                            },
                        }
                    },
                }
            }
        }),
{
}

/// A valid mapping of no more than 32768 bytes is saved as its document with a line end behind it:
/// under a temporary name first, then under the name of the thread, both in one directory.
pub proof fn law_saved_mappings(
    profile: ProfileView,
    mapping: MappingView,
    seen: SeenView,
    is_symlink: Option<bool>,
    document: Seq<u8>,
    unique: Seq<char>,
)
    requires
        is_current(mapping, mapping.thread_id),
        profile::spec_contained_path(profile.session_root, mapping.session_file, seen) is Ok,
    ensures
        ({
            let plan = persistence::spec_plan_save(
                profile,
                mapping,
                seen,
                is_symlink,
                Ok(document),
                unique,
            );
            let digits = text::spec_hex(
                outside::sha256_digest(encode_utf8(mapping.thread_id)),
            );
            let dir = path::spec_join_path(profile.session_root, "mappings"@);
            if is_symlink == Some(true) {
                plan == Err::<SaveView, error::ErrorView>(
                    error::protocol_fault("OMP session mapping may not be a symlink"@),
                )
            } else if document.len() > 32768 {
                plan == Err::<SaveView, error::ErrorView>(
                    error::protocol_fault("OMP session mapping exceeds its size limit"@),
                )
            } else {
                &&& plan matches Ok(save)
                &&& save.contents == document + seq![10u8]
                &&& save.path == path::spec_join_path(dir, digits + ".json"@)
                &&& save.temporary == path::spec_join_path(
                    dir,
                    "."@ + (digits + ".json"@) + "."@ + unique + ".tmp"@,
                )
            }
        }),
{
    assert(document.push(10u8) =~= document + seq![10u8]);
}

/// A mapping that cannot be written as a document is not saved, and neither is one that is not valid.
pub proof fn law_unsaved_mappings(
    profile: ProfileView,
    mapping: MappingView,
    seen: SeenView,
    is_symlink: Option<bool>,
    document: Result<Seq<u8>, Seq<char>>,
    unique: Seq<char>,
)
    ensures
        document is Err ==> persistence::spec_plan_save(
            profile,
            mapping,
            seen,
            is_symlink,
            document,
            unique,
        ) is Err,
        !is_current(mapping, mapping.thread_id) || !(profile::spec_contained_path(
            profile.session_root,
            mapping.session_file,
            seen,
        ) is Ok) ==> persistence::spec_plan_save(
            profile,
            mapping,
            seen,
            is_symlink,
            document,
            unique,
        ) is Err,
{
}

// ---------------------------------------------------------------------------
// The operator's settings
// ---------------------------------------------------------------------------

/// The harness is enabled by the setting 1 alone. Its binary is the given one or `omp`: it is
/// searched for if it is a bare name, and located if it is a path.
pub proof fn law_chosen_binary(enabled: Option<Seq<char>>, binary: Option<Seq<char>>)
    ensures
        ({
            let named = match binary {
                Some(given) => given,
                None => "omp"@,
            };
            let choice = loading::spec_choose_binary(enabled, binary);
            if enabled == Some("1"@) {
                if path::spec_components(named).len() <= 1 {
                    choice == Ok::<BinaryChoiceView, error::ErrorView>(
                        BinaryChoiceView::Search(named),
                    )
                } else {
                    choice == Ok::<BinaryChoiceView, error::ErrorView>(
                        BinaryChoiceView::Locate(named),
                    )
                }
            } else {
                choice == Err::<BinaryChoiceView, error::ErrorView>(
                    error::protocol_fault(
                        "OMP harness is disabled; the operator must set CENTAUR_OMP_ENABLED=1"@,
                    ),
                )
            }
        }),
{
}

/// A binary is taken just if it is a regular file that its owner, its group or others may execute.
pub proof fn law_accepted_binaries(facts: ExecutableFacts)
    ensures
        loading::spec_validate_executable(Ok(facts)) is Ok <==> facts.is_file && (facts.mode
            & 0o100u32 != 0 || facts.mode & 0o010u32 != 0 || facts.mode & 0o001u32 != 0),
        !facts.is_file ==> loading::spec_validate_executable(Ok(facts)) == Err::<
            (),
            error::ErrorView,
        >(error::protocol_fault("OMP profile binary is not a regular file"@)),
{
    let mode = facts.mode;
    assert((mode & 0o111u32 != 0) == (mode & 0o100u32 != 0 || mode & 0o010u32 != 0 || mode
        & 0o001u32 != 0)) by (bit_vector);
}

/// The version is right just if the binary ran and printed that one, but for white space around it.
pub proof fn law_accepted_versions(success: bool, stdout: Seq<char>, fault: Seq<char>)
    ensures
        loading::spec_verify_version(Ok((success, stdout))) is Ok <==> success && text::spec_trim(
            stdout,
        ) == "omp/18.3.0"@,
        loading::spec_verify_version(Err(fault)) == Err::<(), error::ErrorView>(
            error::protocol_fault("failed to execute OMP version check: "@ + fault),
        ),
{
}

/// The root of the sessions is the given one or the usual one, and must be absolute; the models come
/// from the operator's list, which must be given.
pub proof fn law_chosen_root(raw: Seq<char>, root: Option<Seq<char>>)
    ensures
        ({
            let named = match root {
                Some(given) => given,
                None => "/home/agent/.omp/centaur-sessions"@,
            };
            match profile::spec_allowed_list(raw) {
                Err(e) => loading::spec_choose_root(Some(raw), root) == Err::<
                    (Set<(Seq<char>, Seq<char>)>, Seq<char>),
                    error::ErrorView,
                >(e),
                Ok(models) => if named.len() > 0 && named[0] == '/' {
                    loading::spec_choose_root(Some(raw), root) == Ok::<
                        (Set<(Seq<char>, Seq<char>)>, Seq<char>),
                        error::ErrorView,
                    >((models, named))
                } else {
                    loading::spec_choose_root(Some(raw), root) == Err::<
                        (Set<(Seq<char>, Seq<char>)>, Seq<char>),
                        error::ErrorView,
                    >(error::protocol_fault("OMP session root must be absolute"@))
                },
            }
        }),
        loading::spec_choose_root(None, root) is Err,
{
}

/// Without a given root the sessions lie below the home directory, or below the current one.
pub proof fn law_session_root(root: Seq<char>, home: Seq<char>)
    ensures
        server::spec_session_root(Some(root), None) == root,
        server::spec_session_root(Some(root), Some(home)) == root,
        home.len() > 0 && home.last() != '/' ==> server::spec_session_root(None, Some(home)) == home
            + "/.omp/centaur-sessions"@,
        server::spec_session_root(None, None) == "./.omp/centaur-sessions"@,
{
    reveal_strlit("/.omp/centaur-sessions");
    reveal_strlit("./.omp/centaur-sessions");
    reveal_strlit(".omp/centaur-sessions");
    reveal_strlit(".");
    assert(".omp/centaur-sessions"@[0] == '.');
    assert("."@.last() == '.');
    assert(home + seq!['/'] + ".omp/centaur-sessions"@ =~= home + "/.omp/centaur-sessions"@);
    assert("."@ + seq!['/'] + ".omp/centaur-sessions"@ =~= "./.omp/centaur-sessions"@);
}

/// The directory of a thread lies directly below the root, under the digest of the thread in
/// hexadecimal.
pub proof fn law_session_dir(root: Seq<char>, thread_id: Seq<char>)
    requires
        root.len() > 0,
        root.last() != '/',
    ensures
        server::spec_session_dir(root, thread_id) == root + seq!['/'] + text::spec_hex(
            outside::sha256_digest(encode_utf8(thread_id)),
        ),
{
    let digest = outside::sha256_digest(encode_utf8(thread_id));
    text::lemma_hex_chars(digest);
    let name = text::spec_hex(digest);
    if name.len() > 0 {
        assert(name[0] != '/');
    }
}

/// A thread is announced with its first turn and with no other.
pub proof fn law_announcement(started: bool)
    ensures
        server::spec_announce(started).0 == !started,
        server::spec_announce(started).1,
{
}

/// The identifier of a command says which command it is and which number it has.
pub proof fn law_identifiers(command: Seq<char>, number: u64)
    ensures
        ledger::spec_command_id(command, number) == "centaur-"@ + command + "-"@
            + text::spec_decimal(number as nat),
{
}

/// An error is told by its own text; that the runtime ended, by how it ended and what it printed.
pub proof fn law_error_texts(message: Seq<char>, status: Seq<char>, stderr: Seq<char>)
    ensures
        error::HarnessServerError::spec_message(error::ErrorView::Protocol(message)) == message,
        error::HarnessServerError::spec_message(error::ErrorView::Io(message)) == message,
        error::HarnessServerError::spec_message(error::ErrorView::Json(message)) == message,
        error::HarnessServerError::spec_message(
            error::ErrorView::HarnessExited { kind: error::HarnessKind::Omp, status, stderr },
        ) == "omp exited with "@ + status + stderr,
        error::protocol_fault(message) == error::ErrorView::Protocol(
            "OMP protocol error: "@ + message,
        ),
{
}

} // verus!
