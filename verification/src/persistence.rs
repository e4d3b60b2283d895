//! The mappings from threads to the sessions of the runtime, and the files that hold them.

use vstd::prelude::*;
use vstd::utf8::*;

use crate::error;
use crate::error::{protocol_error, HarnessServerError};
use crate::outside;
use crate::outside::{fresh_uuid, sha256};
use crate::path;
use crate::path::join_path;
use crate::profile;
use crate::profile::{
    check_session_path, validate_contained_session_path, OmpProfile, PathSeen, ProfileView,
    SeenView, OMP_VERSION, PROFILE_ID,
};
use crate::prompt::FileFacts;
use crate::text;
use crate::text::{concat, concat3, hex, text_eq, trim};

verus! {

/// The version of the form in which mappings are written.
pub const MAPPING_SCHEMA: u32 = 1;

/// How many bytes a mapping may take.
pub const MAX_MAPPING_BYTES: u64 = 32768;

/// The session of the runtime that belongs to a thread.
#[derive(Debug)]
pub struct SessionMapping {
    pub schema_version: u32,
    pub thread_id: String,
    pub profile_id: String,
    pub omp_version: String,
    pub session_id: String,
    pub session_file: String,
}

/// The content of a [`SessionMapping`].
pub struct MappingView {
    pub schema_version: u32,
    pub thread_id: Seq<char>,
    pub profile_id: Seq<char>,
    pub omp_version: Seq<char>,
    pub session_id: Seq<char>,
    pub session_file: Seq<char>,
}

impl View for SessionMapping {
    type V = MappingView;

    open spec fn view(&self) -> MappingView {
        MappingView {
            schema_version: self.schema_version,
            thread_id: self.thread_id@,
            profile_id: self.profile_id@,
            omp_version: self.omp_version@,
            session_id: self.session_id@,
            session_file: self.session_file@,
        }
    }
}

/// The mapping of a thread to a session of the profile.
pub open spec fn spec_new_mapping(
    thread_id: Seq<char>,
    session_id: Seq<char>,
    session_file: Seq<char>,
) -> MappingView {
    MappingView {
        schema_version: MAPPING_SCHEMA,
        thread_id,
        profile_id: PROFILE_ID@,
        omp_version: OMP_VERSION@,
        session_id,
        session_file,
    }
}

impl SessionMapping {
    /// The mapping of a thread to a session of the profile.
    pub fn new(thread_id: &str, session_id: String, session_file: String) -> (mapping:
        SessionMapping)
        ensures
            mapping@ == spec_new_mapping(thread_id@, session_id@, session_file@),
    {
        SessionMapping {
            schema_version: MAPPING_SCHEMA,
            thread_id: thread_id.to_owned(),
            profile_id: PROFILE_ID.to_owned(),
            omp_version: OMP_VERSION.to_owned(),
            session_id,
            session_file,
        }
    }
}

// ---------------------------------------------------------------------------
// Validity
// ---------------------------------------------------------------------------

/// Whether a mapping is one of this profile for a thread.
pub open spec fn mapping_matches(mapping: MappingView, thread_id: Seq<char>) -> bool {
    &&& mapping.schema_version == MAPPING_SCHEMA
    &&& mapping.thread_id == thread_id
    &&& mapping.profile_id == PROFILE_ID@
    &&& mapping.omp_version == OMP_VERSION@
    &&& text::spec_trim(mapping.session_id).len() > 0
}

/// What stands against a mapping, given where its session file leads.
pub open spec fn spec_validate_mapping(
    profile: ProfileView,
    thread_id: Seq<char>,
    mapping: MappingView,
    seen: SeenView,
) -> Result<(), error::ErrorView> {
    if !mapping_matches(mapping, thread_id) {
        Err(
            error::protocol_fault(
                "OMP resume mapping does not match thread, profile, or runtime version"@,
            ),
        )
    } else {
        match profile::spec_contained_path(profile.session_root, mapping.session_file, seen) {
            Err(e) => Err(e),
            Ok(_) => Ok(()),
        }
    }
}

fn check_identity(thread_id: &str, mapping: &SessionMapping) -> (r: Result<(), HarnessServerError>)
    ensures
        match r {
            Ok(_) => mapping_matches(mapping@, thread_id@),
            Err(e) => !mapping_matches(mapping@, thread_id@) && e@ == error::protocol_fault(
                "OMP resume mapping does not match thread, profile, or runtime version"@,
            ),
        },
{
    let session = trim(mapping.session_id.as_str());
    proof {
        reveal_strlit("");
        assert(""@ =~= Seq::<char>::empty());
        assert(session@.len() == 0 <==> session@ =~= ""@);
    }
    if mapping.schema_version != MAPPING_SCHEMA || !text_eq(mapping.thread_id.as_str(), thread_id)
        || !text_eq(mapping.profile_id.as_str(), PROFILE_ID) || !text_eq(
        mapping.omp_version.as_str(),
        OMP_VERSION,
    ) || text_eq(session, "") {
        return Err(
            protocol_error("OMP resume mapping does not match thread, profile, or runtime version"),
        );
    }
    Ok(())
}

/// Checks all of a mapping that can be checked before its session file is looked at.
pub fn check_mapping(profile: &OmpProfile, thread_id: &str, mapping: &SessionMapping) -> (r: Result<
    (),
    HarnessServerError,
>)
    ensures
        error::agrees(
            r,
            if mapping_matches(mapping@, thread_id@) {
                profile::spec_check_session_path(profile@.session_root, mapping@.session_file)
            } else {
                Err(
                    error::protocol_fault(
                        "OMP resume mapping does not match thread, profile, or runtime version"@,
                    ),
                )
            },
        ),
{
    match check_identity(thread_id, mapping) {
        Err(e) => Err(e),
        Ok(_) => check_session_path(profile.session_root(), mapping.session_file.as_str()),
    }
}

/// Checks that a mapping is one of this profile for a thread, and that its session file lies below
/// the session directory.
pub fn validate_mapping(
    profile: &OmpProfile,
    expected_thread_id: &str,
    mapping: &SessionMapping,
    seen: &PathSeen,
) -> (r: Result<(), HarnessServerError>)
    ensures
        error::agrees(
            r,
            spec_validate_mapping(profile@, expected_thread_id@, mapping@, seen@),
        ),
{
    if let Err(e) = check_identity(expected_thread_id, mapping) {
        return Err(e);
    }
    match validate_contained_session_path(
        profile.session_root(),
        mapping.session_file.as_str(),
        seen,
    ) {
        Ok(_) => Ok(()),
        Err(e) => Err(e),
    }
}

// ---------------------------------------------------------------------------
// File names
// ---------------------------------------------------------------------------

/// The file name for a digest.
pub open spec fn spec_filename_for(digest: Seq<u8>) -> Seq<char> {
    text::spec_hex(digest) + ".json"@
}

/// The file name for a digest.
pub fn filename_for(digest: &[u8]) -> (name: String)
    ensures
        name@ == spec_filename_for(digest@),
{
    let digits = hex(digest);
    concat(digits.as_str(), ".json")
}

/// The name of the file that holds the mapping of a thread.
pub open spec fn spec_mapping_filename(thread_id: Seq<char>) -> Seq<char> {
    spec_filename_for(outside::sha256_digest(encode_utf8(thread_id)))
}

/// The name of the file that holds the mapping of a thread.
pub fn mapping_filename(thread_id: &str) -> (name: String)
    ensures
        name@ == spec_mapping_filename(thread_id@),
        name@.len() == 69,
{
    let digest = sha256(thread_id.as_bytes());
    proof {
        reveal_strlit(".json");
        assert(text::spec_hex(digest@).len() == 64);
    }
    filename_for(digest.as_slice())
}

/// The path of the file that holds the mapping of a thread.
pub open spec fn spec_mapping_path(profile: ProfileView, thread_id: Seq<char>) -> Seq<char> {
    path::spec_join_path(profile::spec_mapping_dir(profile), spec_mapping_filename(thread_id))
}

/// The path of the file that holds the mapping of a thread.
pub fn mapping_path(profile: &OmpProfile, thread_id: &str) -> (path: String)
    ensures
        path@ == spec_mapping_path(profile@, thread_id@),
{
    let dir = profile.mapping_dir();
    let name = mapping_filename(thread_id);
    join_path(dir.as_str(), name.as_str())
}

/// The name of the file in which the mapping of a thread is first written.
pub open spec fn spec_temporary_name(thread_id: Seq<char>, unique: Seq<char>) -> Seq<char> {
    "."@ + spec_mapping_filename(thread_id) + "."@ + unique + ".tmp"@
}

/// File names of mappings hold digits, the letters `a` to `f` and the ending alone: they cannot
/// lead out of their directory.
pub proof fn law_filename_cannot_escape(digest: Seq<u8>)
    ensures
        path::plain_name(spec_filename_for(digest)),
        !spec_filename_for(digest).contains('/'),
        !spec_filename_for(digest).contains('\\'),
        text::spec_strip_suffix(spec_filename_for(digest), ".json"@) == Some(
            text::spec_hex(digest),
        ),
{
    reveal_strlit(".json");
    text::lemma_hex_chars(digest);
    let digits = text::spec_hex(digest);
    let name = spec_filename_for(digest);
    assert(name.len() == digits.len() + 5);
    assert forall|i: int| 0 <= i < name.len() implies name[i] != '/' && name[i] != '\\' by {
        if i < digits.len() {
            assert(name[i] == digits[i]);
        } else {
            assert(name[i] == ".json"@[i - digits.len()]);
        }
    }
    assert(name.skip(name.len() - 5) =~= ".json"@);
    assert(name.take(name.len() - 5) =~= digits);
}

/// The mapping of a thread lies directly in the mapping directory below the session root.
pub proof fn law_mapping_path_is_contained(profile: ProfileView, thread_id: Seq<char>)
    ensures
        path::spec_components(spec_mapping_path(profile, thread_id)) == path::spec_components(
            profile.session_root,
        ).push(path::PathPart::Normal("mappings"@)).push(
            path::PathPart::Normal(spec_mapping_filename(thread_id)),
        ),
{
    reveal_strlit("mappings");
    assert(path::plain_name("mappings"@));
    path::lemma_join_components(profile.session_root, "mappings"@);
    law_filename_cannot_escape(outside::sha256_digest(encode_utf8(thread_id)));
    path::lemma_join_components(
        profile::spec_mapping_dir(profile),
        spec_mapping_filename(thread_id),
    );
}

/// Two threads share a file only if the digests of their whole names are the same.
pub proof fn law_filenames_differ_as_digests_do(a: Seq<u8>, b: Seq<u8>)
    requires
        spec_filename_for(a) == spec_filename_for(b),
    ensures
        a == b,
{
    let x = text::spec_hex(a);
    let y = text::spec_hex(b);
    let name = spec_filename_for(a);
    assert((x + ".json"@).len() == (y + ".json"@).len());
    assert(x.len() == y.len());
    assert(x =~= name.take(x.len() as int));
    assert(y =~= spec_filename_for(b).take(y.len() as int));
    text::lemma_hex_injective(a, b);
}

// ---------------------------------------------------------------------------
// Saving
// ---------------------------------------------------------------------------

/// Refuses a mapping file that is a symbolic link. Where nothing could be found out of it, nothing
/// stands against it.
pub open spec fn spec_reject_symlink(is_symlink: Option<bool>) -> Result<(), error::ErrorView> {
    if is_symlink == Some(true) {
        Err(error::protocol_fault("OMP session mapping may not be a symlink"@))
    } else {
        Ok(())
    }
}

/// Refuses a mapping file that is a symbolic link.
pub fn reject_symlink_if_present(is_symlink: Option<bool>) -> (r: Result<(), HarnessServerError>)
    ensures
        error::agrees(r, spec_reject_symlink(is_symlink)),
{
    match is_symlink {
        Some(true) => Err(protocol_error("OMP session mapping may not be a symlink")),
        _ => Ok(()),
    }
}

/// How a mapping is written: the contents go into a new temporary file, which then takes the place
/// of the file at the path.
#[derive(Debug)]
pub struct SavePlan {
    pub temporary: String,
    pub path: String,
    pub contents: Vec<u8>,
}

/// The content of a [`SavePlan`].
#[verifier::ext_equal]
pub struct SaveView {
    pub temporary: Seq<char>,
    pub path: Seq<char>,
    pub contents: Seq<u8>,
}

impl View for SavePlan {
    type V = SaveView;

    open spec fn view(&self) -> SaveView {
        SaveView {
            temporary: self.temporary@,
            path: self.path@,
            contents: self.contents@,
        }
    }
}

/// The content of some bytes, or of the description of a failure.
pub open spec fn bytes_result(r: Result<Vec<u8>, String>) -> Result<Seq<u8>, Seq<char>> {
    match r {
        Ok(bytes) => Ok(bytes@),
        Err(fault) => Err(fault@),
    }
}

/// How a mapping is written, given where its session file leads, whether its own file is a link,
/// its document and a text that makes the temporary file unique.
pub open spec fn spec_plan_save(
    profile: ProfileView,
    mapping: MappingView,
    seen: SeenView,
    is_symlink: Option<bool>,
    document: Result<Seq<u8>, Seq<char>>,
    unique: Seq<char>,
) -> Result<SaveView, error::ErrorView> {
    match spec_validate_mapping(profile, mapping.thread_id, mapping, seen) {
        Err(e) => Err(e),
        Ok(_) => match spec_reject_symlink(is_symlink) {
            Err(e) => Err(e),
            Ok(_) => match document {
                Err(fault) => Err(error::ErrorView::Json(fault)),
                Ok(bytes) => if bytes.len() > MAX_MAPPING_BYTES {
                    Err(error::protocol_fault("OMP session mapping exceeds its size limit"@))
                } else {
                    Ok(
                        SaveView {
                            temporary: path::spec_join_path(
                                profile::spec_mapping_dir(profile),
                                spec_temporary_name(mapping.thread_id, unique),
                            ),
                            path: spec_mapping_path(profile, mapping.thread_id),
                            contents: bytes.push(10u8),
                        },
                    )
                },
            },
        },
    }
}

/// Plans how a mapping is written, with a text that makes the temporary file unique.
pub fn plan_save(
    profile: &OmpProfile,
    mapping: &SessionMapping,
    seen: &PathSeen,
    is_symlink: Option<bool>,
    document: Result<Vec<u8>, String>,
    unique: &str,
) -> (r: Result<SavePlan, HarnessServerError>)
    ensures
        error::agrees(
            r,
            spec_plan_save(profile@, mapping@, seen@, is_symlink, bytes_result(document), unique@),
        ),
{
    if let Err(e) = validate_mapping(profile, mapping.thread_id.as_str(), mapping, seen) {
        return Err(e);
    }
    let path = mapping_path(profile, mapping.thread_id.as_str());
    if let Err(e) = reject_symlink_if_present(is_symlink) {
        return Err(e);
    }
    let mut name = ".".to_owned();
    name.append(mapping_filename(mapping.thread_id.as_str()).as_str());
    name.append(".");
    name.append(unique);
    name.append(".tmp");
    let temporary = join_path(profile.mapping_dir().as_str(), name.as_str());
    let mut contents = match document {
        Ok(bytes) => bytes,
        Err(fault) => {
            return Err(HarnessServerError::Json(fault));
        },
    };
    if contents.len() as u64 > MAX_MAPPING_BYTES {
        return Err(protocol_error("OMP session mapping exceeds its size limit"));
    }
    contents.push(10u8);
    Ok(SavePlan { temporary, path, contents })
}

/// Plans how a mapping is written, with a fresh name for the temporary file.
pub fn save(
    profile: &OmpProfile,
    mapping: &SessionMapping,
    seen: &PathSeen,
    is_symlink: Option<bool>,
    document: Result<Vec<u8>, String>,
) -> (r: Result<SavePlan, HarnessServerError>)
    ensures
        exists|unique: Seq<char>| #[trigger]
            outside::hyphenated_uuid(unique) && error::agrees(
                r,
                spec_plan_save(
                    profile@,
                    mapping@,
                    seen@,
                    is_symlink,
                    bytes_result(document),
                    unique,
                ),
            ),
{
    let unique = fresh_uuid();
    plan_save(profile, mapping, seen, is_symlink, document, unique.as_str())
}

// ---------------------------------------------------------------------------
// Loading
// ---------------------------------------------------------------------------

/// What was found of the kind and the size of a file.
#[derive(Debug)]
pub enum MetadataSeen {
    NotFound,
    Failed(String),
    Found(FileFacts),
}

/// The content of a [`MetadataSeen`].
pub enum MetadataView {
    NotFound,
    Failed(Seq<char>),
    Found(FileFacts),
}

impl View for MetadataSeen {
    type V = MetadataView;

    open spec fn view(&self) -> MetadataView {
        match self {
            MetadataSeen::NotFound => MetadataView::NotFound,
            MetadataSeen::Failed(fault) => MetadataView::Failed(fault@),
            MetadataSeen::Found(facts) => MetadataView::Found(*facts),
        }
    }
}

/// Whether there is a mapping file to read.
pub open spec fn spec_examine(is_symlink: Option<bool>, metadata: MetadataView) -> Result<
    bool,
    error::ErrorView,
> {
    match spec_reject_symlink(is_symlink) {
        Err(e) => Err(e),
        Ok(_) => match metadata {
            MetadataView::NotFound => Ok(false),
            MetadataView::Failed(fault) => Err(error::ErrorView::Io(fault)),
            MetadataView::Found(facts) => if !facts.is_file || facts.len > MAX_MAPPING_BYTES {
                Err(error::protocol_fault("OMP resume mapping is not a bounded regular file"@))
            } else {
                Ok(true)
            },
        },
    }
}

/// Says whether there is a mapping file to read.
pub fn examine_mapping_file(is_symlink: Option<bool>, metadata: &MetadataSeen) -> (r: Result<
    bool,
    HarnessServerError,
>)
    ensures
        error::agrees(r, spec_examine(is_symlink, metadata@)),
{
    if let Err(e) = reject_symlink_if_present(is_symlink) {
        return Err(e);
    }
    match metadata {
        MetadataSeen::NotFound => Ok(false),
        MetadataSeen::Failed(fault) => Err(HarnessServerError::Io(fault.clone())),
        MetadataSeen::Found(facts) => {
            if !facts.is_file || facts.len > MAX_MAPPING_BYTES {
                return Err(protocol_error("OMP resume mapping is not a bounded regular file"));
            }
            Ok(true)
        },
    }
}

/// What stands against the bytes of a mapping file. At most one byte over the limit is read.
pub open spec fn spec_check_bytes(read: Result<Seq<u8>, Seq<char>>) -> Result<
    (),
    error::ErrorView,
> {
    match read {
        Err(fault) => Err(error::ErrorView::Io(fault)),
        Ok(bytes) => if bytes.len() > MAX_MAPPING_BYTES {
            Err(error::protocol_fault("OMP resume mapping exceeds its size limit"@))
        } else {
            Ok(())
        },
    }
}

/// Checks the bytes of a mapping file.
pub fn check_mapping_bytes(read: &Result<Vec<u8>, String>) -> (r: Result<(), HarnessServerError>)
    ensures
        error::agrees(r, spec_check_bytes(bytes_result(*read))),
{
    match read {
        Err(fault) => Err(HarnessServerError::Io(fault.clone())),
        Ok(bytes) => {
            if bytes.len() as u64 > MAX_MAPPING_BYTES {
                return Err(protocol_error("OMP resume mapping exceeds its size limit"));
            }
            Ok(())
        },
    }
}

/// The content of a mapping, or of the description of a failure.
pub open spec fn mapping_result(r: Result<SessionMapping, String>) -> Result<
    MappingView,
    Seq<char>,
> {
    match r {
        Ok(mapping) => Ok(mapping@),
        Err(fault) => Err(fault@),
    }
}

/// The mapping that a file holds, if it is one of this profile for a thread.
pub open spec fn spec_accept_mapping(
    profile: ProfileView,
    thread_id: Seq<char>,
    parsed: Result<MappingView, Seq<char>>,
    seen: SeenView,
) -> Result<MappingView, error::ErrorView> {
    match parsed {
        Err(fault) => Err(error::protocol_fault("OMP resume mapping is invalid: "@ + fault)),
        Ok(mapping) => match spec_validate_mapping(profile, thread_id, mapping, seen) {
            Err(e) => Err(e),
            Ok(_) => Ok(mapping),
        },
    }
}

/// Takes the mapping that a file holds, if it is one of this profile for a thread.
pub fn accept_mapping(
    profile: &OmpProfile,
    thread_id: &str,
    parsed: Result<SessionMapping, String>,
    seen: &PathSeen,
) -> (r: Result<SessionMapping, HarnessServerError>)
    ensures
        error::agrees(
            r,
            spec_accept_mapping(profile@, thread_id@, mapping_result(parsed), seen@),
        ),
{
    match parsed {
        Err(fault) => {
            let message = concat("OMP resume mapping is invalid: ", fault.as_str());
            Err(protocol_error(message.as_str()))
        },
        Ok(mapping) => match validate_mapping(profile, thread_id, &mapping, seen) {
            Ok(_) => Ok(mapping),
            Err(e) => Err(e),
        },
    }
}

/// What was found of the mapping file of a thread. Each part counts only where the parts before it
/// let the file be read on.
#[derive(Debug)]
pub struct MappingFile {
    pub is_symlink: Option<bool>,
    pub metadata: MetadataSeen,
    pub read: Result<Vec<u8>, String>,
    /// The document that the bytes are, or what keeps them from being one.
    pub parsed: Result<SessionMapping, String>,
    /// Where the session file of the mapping leads.
    pub session: PathSeen,
}

/// The content of a [`MappingFile`].
pub struct MappingFileView {
    pub is_symlink: Option<bool>,
    pub metadata: MetadataView,
    pub read: Result<Seq<u8>, Seq<char>>,
    pub parsed: Result<MappingView, Seq<char>>,
    pub session: SeenView,
}

impl View for MappingFile {
    type V = MappingFileView;

    open spec fn view(&self) -> MappingFileView {
        MappingFileView {
            is_symlink: self.is_symlink,
            metadata: self.metadata@,
            read: bytes_result(self.read),
            parsed: mapping_result(self.parsed),
            session: self.session@,
        }
    }
}

/// The mapping of a thread, where there is one.
pub open spec fn spec_load(
    profile: ProfileView,
    thread_id: Seq<char>,
    file: MappingFileView,
) -> Result<Option<MappingView>, error::ErrorView> {
    match spec_examine(file.is_symlink, file.metadata) {
        Err(e) => Err(e),
        Ok(false) => Ok(None),
        Ok(true) => match spec_check_bytes(file.read) {
            Err(e) => Err(e),
            Ok(_) => match spec_accept_mapping(profile, thread_id, file.parsed, file.session) {
                Err(e) => Err(e),
                Ok(mapping) => Ok(Some(mapping)),
            },
        },
    }
}

/// Whether an optional mapping is what a specification asks for.
pub open spec fn same_loaded(
    got: Result<Option<SessionMapping>, HarnessServerError>,
    want: Result<Option<MappingView>, error::ErrorView>,
) -> bool {
    match (got, want) {
        (Ok(Some(mapping)), Ok(Some(content))) => mapping@ == content,
        (Ok(None), Ok(None)) => true,
        (Err(e), Err(fault)) => e@ == fault,
        _ => false,
    }
}

/// Loads the mapping of a thread, where there is one, from what was found of its file.
pub fn load(profile: &OmpProfile, thread_id: &str, file: MappingFile) -> (r: Result<
    Option<SessionMapping>,
    HarnessServerError,
>)
    ensures
        same_loaded(r, spec_load(profile@, thread_id@, file@)),
{
    match examine_mapping_file(file.is_symlink, &file.metadata) {
        Err(e) => {
            return Err(e);
        },
        Ok(false) => {
            return Ok(None);
        },
        Ok(true) => {},
    }
    if let Err(e) = check_mapping_bytes(&file.read) {
        return Err(e);
    }
    match accept_mapping(profile, thread_id, file.parsed, &file.session) {
        Ok(mapping) => Ok(Some(mapping)),
        Err(e) => Err(e),
    }
}

/// The mapping with which a thread is resumed.
pub open spec fn spec_load_resume(
    thread_id: Seq<char>,
    loaded: Result<Option<MappingView>, error::ErrorView>,
) -> Result<MappingView, error::ErrorView> {
    match loaded {
        Err(e) => Err(e),
        Ok(Some(mapping)) => Ok(mapping),
        Ok(None) => Err(
            error::protocol_fault(
                "OMP resume mapping for thread "@ + thread_id + " is unavailable"@,
            ),
        ),
    }
}

/// Loads the mapping with which a thread is resumed: there must be one.
pub fn load_resume_mapping(profile: &OmpProfile, thread_id: &str, file: MappingFile) -> (r: Result<
    SessionMapping,
    HarnessServerError,
>)
    ensures
        error::agrees(r, spec_load_resume(thread_id@, spec_load(profile@, thread_id@, file@))),
{
    match load(profile, thread_id, file) {
        Err(e) => Err(e),
        Ok(Some(mapping)) => Ok(mapping),
        Ok(None) => {
            let message = concat3(
                "OMP resume mapping for thread ",
                thread_id,
                " is unavailable",
            );
            Err(protocol_error(message.as_str()))
        },
    }
}

/// What a file holds after a plan was carried out: the planned contents in a regular file, which
/// the parser takes for the mapping that they were written from.
pub open spec fn holds_saved(
    file: MappingFileView,
    plan: SaveView,
    mapping: MappingView,
    seen: SeenView,
) -> bool {
    &&& file.is_symlink != Some(true)
    &&& file.metadata == MetadataView::Found(
        FileFacts { is_file: true, len: plan.contents.len() as u64 },
    )
    &&& file.read == Ok::<Seq<u8>, Seq<char>>(plan.contents)
    &&& file.parsed == Ok::<MappingView, Seq<char>>(mapping)
    &&& file.session == seen
}

/// A mapping that was saved is loaded again for its thread, as it was, where its document leaves
/// room for the line end that is written behind it.
pub proof fn law_saved_mapping_is_loaded(
    profile: ProfileView,
    mapping: MappingView,
    seen: SeenView,
    is_symlink: Option<bool>,
    document: Seq<u8>,
    unique: Seq<char>,
    file: MappingFileView,
)
    requires
        document.len() < MAX_MAPPING_BYTES,
        spec_plan_save(profile, mapping, seen, is_symlink, Ok(document), unique) matches Ok(plan)
            && holds_saved(file, plan, mapping, seen),
    ensures
        spec_load(profile, mapping.thread_id, file) == Ok::<
            Option<MappingView>,
            error::ErrorView,
        >(Some(mapping)),
{
}

/// Two names in one directory have the same path only if they are the same.
proof fn lemma_paths_tell_names(dir: Seq<char>, a: Seq<char>, b: Seq<char>)
    requires
        !path::spec_absolute(a),
        !path::spec_absolute(b),
        path::spec_join_path(dir, a) == path::spec_join_path(dir, b),
    ensures
        a == b,
{
    let joined = path::spec_join_path(dir, a);
    let skipped: int = if dir.len() == 0 {
        0
    } else if dir.last() == '/' {
        dir.len() as int
    } else {
        (dir.len() + 1) as int
    };
    assert(joined.skip(skipped) =~= a);
    assert(path::spec_join_path(dir, b).skip(skipped) =~= b);
}

/// A temporary name is none of a mapping.
proof fn lemma_temporary_is_no_mapping(thread_id: Seq<char>, unique: Seq<char>, digest: Seq<u8>)
    ensures
        !path::spec_absolute(spec_temporary_name(thread_id, unique)),
        !path::spec_absolute(spec_filename_for(digest)),
        spec_temporary_name(thread_id, unique) != spec_filename_for(digest),
{
    reveal_strlit(".");
    reveal_strlit(".tmp");
    reveal_strlit(".json");
    let temporary = spec_temporary_name(thread_id, unique);
    assert(temporary[0] == '.');
    assert(temporary.last() == ".tmp"@[3]);
    assert(spec_filename_for(digest).last() == ".json"@[4]);
    law_filename_cannot_escape(digest);
    if path::spec_absolute(spec_filename_for(digest)) {
        assert(spec_filename_for(digest).contains(spec_filename_for(digest)[0]));
    }
}

/// Temporary names tell the digests of their threads.
proof fn lemma_temporaries_tell_digests(
    a: Seq<char>,
    b: Seq<char>,
    unique_a: Seq<char>,
    unique_b: Seq<char>,
)
    requires
        spec_temporary_name(a, unique_a) == spec_temporary_name(b, unique_b),
    ensures
        outside::sha256_digest(encode_utf8(a)) == outside::sha256_digest(encode_utf8(b)),
{
    let digest_a = outside::sha256_digest(encode_utf8(a));
    let digest_b = outside::sha256_digest(encode_utf8(b));
    lemma_temporary_digits(a, unique_a);
    lemma_temporary_digits(b, unique_b);
    text::lemma_hex_injective(digest_a, digest_b);
}

/// The digits of a temporary name stand between its first two dots.
proof fn lemma_temporary_digits(thread_id: Seq<char>, unique: Seq<char>)
    ensures
        ({
            let rest = spec_temporary_name(thread_id, unique).skip(1);
            rest.take(text::spec_find(rest, '.')) == text::spec_hex(
                outside::sha256_digest(encode_utf8(thread_id)),
            )
        }),
{
    reveal_strlit(".");
    reveal_strlit(".json");
    let digest = outside::sha256_digest(encode_utf8(thread_id));
    let digits = text::spec_hex(digest);
    let n = digits.len() as int;
    let name = spec_temporary_name(thread_id, unique);
    let rest = name.skip(1);
    text::lemma_hex_chars(digest);
    assert forall|i: int| 0 <= i < n implies rest[i] == digits[i] && rest[i] != '.' by {
        assert(name[i + 1] == digits[i]);
    }
    assert(rest[n] == name[n + 1]);
    assert(name[n + 1] == ".json"@[0]);
    text::lemma_find_at(rest, '.', n);
    assert(rest.take(n) =~= digits);
}

/// Threads with different digests keep their own mappings: they are written to different paths by way
/// of different temporary files, none of which is the file of the other; and each mapping that was
/// saved is loaded for its own thread, whatever was saved for the other.
pub proof fn law_threads_keep_their_own_mappings(
    profile: ProfileView,
    a: MappingView,
    b: MappingView,
    seen_a: SeenView,
    seen_b: SeenView,
    link_a: Option<bool>,
    link_b: Option<bool>,
    document_a: Seq<u8>,
    document_b: Seq<u8>,
    unique_a: Seq<char>,
    unique_b: Seq<char>,
    plan_a: SaveView,
    plan_b: SaveView,
    file_a: MappingFileView,
    file_b: MappingFileView,
)
    requires
        outside::sha256_digest(encode_utf8(a.thread_id)) != outside::sha256_digest(
            encode_utf8(b.thread_id),
        ),
        spec_plan_save(profile, a, seen_a, link_a, Ok(document_a), unique_a) == Ok::<
            SaveView,
            error::ErrorView,
        >(plan_a),
        spec_plan_save(profile, b, seen_b, link_b, Ok(document_b), unique_b) == Ok::<
            SaveView,
            error::ErrorView,
        >(plan_b),
    ensures
        plan_a.path == spec_mapping_path(profile, a.thread_id),
        plan_b.path == spec_mapping_path(profile, b.thread_id),
        plan_a.path != plan_b.path,
        plan_a.temporary != plan_b.temporary,
        plan_a.temporary != plan_a.path && plan_a.temporary != plan_b.path,
        plan_b.temporary != plan_a.path && plan_b.temporary != plan_b.path,
        document_a.len() < MAX_MAPPING_BYTES && holds_saved(file_a, plan_a, a, seen_a)
            ==> spec_load(profile, a.thread_id, file_a) == Ok::<
            Option<MappingView>,
            error::ErrorView,
        >(Some(a)),
        document_b.len() < MAX_MAPPING_BYTES && holds_saved(file_b, plan_b, b, seen_b)
            ==> spec_load(profile, b.thread_id, file_b) == Ok::<
            Option<MappingView>,
            error::ErrorView,
        >(Some(b)),
{
    let dir = profile::spec_mapping_dir(profile);
    let digest_a = outside::sha256_digest(encode_utf8(a.thread_id));
    let digest_b = outside::sha256_digest(encode_utf8(b.thread_id));
    let temporary_a = spec_temporary_name(a.thread_id, unique_a);
    let temporary_b = spec_temporary_name(b.thread_id, unique_b);
    let name_a = spec_filename_for(digest_a);
    let name_b = spec_filename_for(digest_b);
    lemma_temporary_is_no_mapping(a.thread_id, unique_a, digest_a);
    lemma_temporary_is_no_mapping(a.thread_id, unique_a, digest_b);
    lemma_temporary_is_no_mapping(b.thread_id, unique_b, digest_a);
    lemma_temporary_is_no_mapping(b.thread_id, unique_b, digest_b);
    if plan_a.path == plan_b.path {
        lemma_paths_tell_names(dir, name_a, name_b);
        law_filenames_differ_as_digests_do(digest_a, digest_b);
    }
    if plan_a.temporary == plan_b.temporary {
        lemma_paths_tell_names(dir, temporary_a, temporary_b);
        lemma_temporaries_tell_digests(a.thread_id, b.thread_id, unique_a, unique_b);
    }
    if plan_a.temporary == plan_a.path {
        lemma_paths_tell_names(dir, temporary_a, name_a);
    }
    if plan_a.temporary == plan_b.path {
        lemma_paths_tell_names(dir, temporary_a, name_b);
    }
    if plan_b.temporary == plan_a.path {
        lemma_paths_tell_names(dir, temporary_b, name_a);
    }
    if plan_b.temporary == plan_b.path {
        lemma_paths_tell_names(dir, temporary_b, name_b);
    }
    if document_a.len() < MAX_MAPPING_BYTES && holds_saved(file_a, plan_a, a, seen_a) {
        law_saved_mapping_is_loaded(profile, a, seen_a, link_a, document_a, unique_a, file_a);
    }
    if document_b.len() < MAX_MAPPING_BYTES && holds_saved(file_b, plan_b, b, seen_b) {
        law_saved_mapping_is_loaded(profile, b, seen_b, link_b, document_b, unique_b, file_b);
    }
}

/// A mapping is never loaded for a thread other than its own.
pub proof fn law_mapping_belongs_to_its_thread(
    profile: ProfileView,
    thread_id: Seq<char>,
    file: MappingFileView,
)
    ensures
        spec_load(profile, thread_id, file) matches Ok(Some(mapping)) ==> {
            &&& mapping.thread_id == thread_id
            &&& mapping.profile_id == PROFILE_ID@
            &&& mapping.omp_version == OMP_VERSION@
            &&& mapping.schema_version == MAPPING_SCHEMA
        },
        file.parsed matches Ok(mapping) ==> mapping.thread_id != thread_id ==> !(spec_load(
            profile,
            thread_id,
            file,
        ) matches Ok(Some(_))),
{
}

/// A mapping that is loaded names a session file below the session directory.
pub proof fn law_loaded_session_is_contained(
    profile: ProfileView,
    thread_id: Seq<char>,
    file: MappingFileView,
)
    ensures
        spec_load(profile, thread_id, file) matches Ok(Some(mapping)) ==> profile::spec_contained_path(
            profile.session_root,
            mapping.session_file,
            file.session,
        ) is Ok,
{
}

/// A mapping file that is a symbolic link is neither written nor read.
pub proof fn law_links_are_refused(
    profile: ProfileView,
    mapping: MappingView,
    seen: SeenView,
    document: Result<Seq<u8>, Seq<char>>,
    unique: Seq<char>,
    thread_id: Seq<char>,
    file: MappingFileView,
)
    requires
        file.is_symlink == Some(true),
    ensures
        spec_plan_save(profile, mapping, seen, file.is_symlink, document, unique) is Err,
        spec_load(profile, thread_id, file) is Err,
{
}

} // verus!
