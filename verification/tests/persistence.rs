use omp_harness::loading::{
    choose_binary, choose_root, validate_executable, verify_binary_version, BinaryChoice,
    ExecutableFacts, VersionRun,
};
use omp_harness::persistence::{
    accept_mapping, check_mapping, check_mapping_bytes, examine_mapping_file, filename_for, load,
    load_resume_mapping, mapping_filename, mapping_path, plan_save, reject_symlink_if_present,
    save, validate_mapping, MappingFile, MetadataSeen, SessionMapping,
};
use omp_harness::profile::{OmpProfile, PathSeen};
use omp_harness::prompt::FileFacts;

fn profile(root: &str) -> OmpProfile {
    let checked = match choose_binary(Some("1"), Some("omp")).unwrap() {
        BinaryChoice::Search(binary) => binary,
        BinaryChoice::Locate(_) => panic!("a bare name is searched for"),
    };
    let run = VersionRun { success: true, stdout: "omp/18.3.0\n".to_owned() };
    let verified = verify_binary_version(checked, Ok(run)).unwrap();
    let choice = choose_root(Some("anthropic/fake-model"), Some(root)).unwrap();
    OmpProfile::with_binary(verified, choice.models, choice.root)
}

fn present(path: &str) -> PathSeen {
    PathSeen::Present { canonical: Ok(path.to_owned()) }
}

fn found(mapping: SessionMapping, bytes: Vec<u8>) -> MappingFile {
    let session = present(&mapping.session_file);
    MappingFile {
        is_symlink: Some(false),
        metadata: MetadataSeen::Found(FileFacts { is_file: true, len: bytes.len() as u64 }),
        read: Ok(bytes),
        parsed: Ok(mapping),
        session,
    }
}

#[test]
fn mapping_filename_uses_the_entire_thread_key() {
    let prefix = "x".repeat(256);
    assert_ne!(
        mapping_filename(&format!("{prefix}a")),
        mapping_filename(&format!("{prefix}b"))
    );
}

#[test]
fn mapping_filename_cannot_escape_directory() {
    let filename = mapping_filename("../../other/thread\\name");
    assert!(!filename.contains('/'));
    assert!(!filename.contains('\\'));
    assert!(filename.ends_with(".json"));
}

#[test]
fn mapping_filename_is_the_digest_in_hexadecimal() {
    assert_eq!(
        mapping_filename("abc"),
        "ba7816bf8f01cfea414140de5dae2223b00361a396177a9cb410ff61f20015ad.json"
    );
    assert_eq!(filename_for(&[0, 255, 16]), "00ff10.json");
}

#[test]
fn mapping_path_lies_in_the_mapping_directory() {
    let profile = profile("/srv/sessions");
    assert_eq!(profile.mapping_dir(), "/srv/sessions/mappings");
    assert_eq!(
        mapping_path(&profile, "abc"),
        "/srv/sessions/mappings/\
         ba7816bf8f01cfea414140de5dae2223b00361a396177a9cb410ff61f20015ad.json"
    );
}

#[test]
fn long_thread_keys_with_shared_prefix_resume_distinct_sessions() {
    let profile = profile("/srv/sessions");
    let session_file = format!("{}/session.jsonl", profile.session_root());
    let first = format!("{}{}", "x".repeat(256), "a".repeat(256));
    let second = format!("{}{}", "x".repeat(256), "b".repeat(256));
    let mut paths = Vec::new();
    let mut temporaries = Vec::new();
    for (thread, session) in [(&first, "first"), (&second, "second")] {
        let mapping = SessionMapping::new(thread, session.to_owned(), session_file.clone());
        let plan = save(
            &profile,
            &mapping,
            &present(&session_file),
            None,
            Ok(b"{}".to_vec()),
        )
        .unwrap();
        paths.push(plan.path);
        temporaries.push(plan.temporary);
        let loaded = load(&profile, thread, found(mapping, plan.contents)).unwrap().unwrap();
        assert_eq!((&loaded.thread_id, loaded.session_id.as_str()), (thread, session));
    }
    assert_ne!(paths[0], paths[1]);
    assert_ne!(temporaries[0], temporaries[1]);
    assert!(temporaries.iter().all(|temporary| !paths.contains(temporary)));
}

#[test]
fn load_rejects_mismatched_full_thread_key() {
    let profile = profile("/srv/sessions");
    let mapping = SessionMapping::new(
        "other",
        "session".to_owned(),
        "/srv/sessions/session.jsonl".to_owned(),
    );
    let result = load(&profile, "requested", found(mapping, b"{}".to_vec()));
    assert!(result.unwrap_err().message().contains("does not match thread"));
}

#[test]
fn rejects_symlink_mapping_file() {
    assert!(reject_symlink_if_present(Some(true))
        .unwrap_err()
        .message()
        .contains("symlink"));
    assert!(reject_symlink_if_present(Some(false)).is_ok());
    assert!(reject_symlink_if_present(None).is_ok());
}

#[test]
fn saved_files_are_named_after_the_thread_and_unique() {
    let profile = profile("/srv/sessions");
    let file = "/srv/sessions/s.jsonl";
    let mapping = SessionMapping::new("abc", "one".to_owned(), file.to_owned());
    let plan = plan_save(
        &profile,
        &mapping,
        &present(file),
        Some(false),
        Ok(b"{\"a\":1}".to_vec()),
        "unique",
    )
    .unwrap();
    assert_eq!(
        plan.temporary,
        "/srv/sessions/mappings/\
         .ba7816bf8f01cfea414140de5dae2223b00361a396177a9cb410ff61f20015ad.json.unique.tmp"
    );
    assert_eq!(plan.path, mapping_path(&profile, "abc"));
    assert_eq!(plan.contents, b"{\"a\":1}\n");

    let once = save(&profile, &mapping, &present(file), None, Ok(Vec::new())).unwrap();
    let twice = save(&profile, &mapping, &present(file), None, Ok(Vec::new())).unwrap();
    assert_ne!(once.temporary, twice.temporary);
    let name = once.temporary.strip_prefix("/srv/sessions/mappings/.").unwrap();
    let unique = name
        .strip_prefix(mapping_filename("abc").as_str())
        .and_then(|rest| rest.strip_prefix('.'))
        .and_then(|rest| rest.strip_suffix(".tmp"))
        .unwrap();
    assert_eq!(unique.len(), 36);
    assert_eq!(unique.matches('-').count(), 4);
    assert!(unique.chars().all(|c| c == '-' || "0123456789abcdef".contains(c)));
}

#[test]
fn saving_fails_where_the_mapping_or_its_document_is_refused() {
    let profile = profile("/srv/sessions");
    let file = "/srv/sessions/s.jsonl";
    let mapping = SessionMapping::new("abc", "one".to_owned(), file.to_owned());
    let seen = present(file);
    let over = plan_save(&profile, &mapping, &seen, None, Ok(vec![0; 32769]), "u");
    assert_eq!(
        over.unwrap_err().message(),
        "OMP protocol error: OMP session mapping exceeds its size limit"
    );
    assert!(plan_save(&profile, &mapping, &seen, None, Ok(vec![0; 32768]), "u").is_ok());
    let unwritten = plan_save(&profile, &mapping, &seen, None, Err("no".to_owned()), "u");
    assert_eq!(unwritten.unwrap_err().message(), "no");
    let linked = plan_save(&profile, &mapping, &seen, Some(true), Ok(Vec::new()), "u");
    assert!(linked.unwrap_err().message().contains("symlink"));
    let blank = SessionMapping::new("abc", " \t".to_owned(), file.to_owned());
    assert!(plan_save(&profile, &blank, &seen, None, Ok(Vec::new()), "u").is_err());
}

#[test]
fn a_document_of_full_size_is_saved_but_not_loaded() {
    let profile = profile("/srv/sessions");
    let file = "/srv/sessions/s.jsonl";
    for (size, loads) in [(32767, true), (32768, false)] {
        let mapping = SessionMapping::new("abc", "one".to_owned(), file.to_owned());
        let plan =
            plan_save(&profile, &mapping, &present(file), None, Ok(vec![32; size]), "u").unwrap();
        assert_eq!(load(&profile, "abc", found(mapping, plan.contents)).is_ok(), loads);
    }
}

#[test]
fn mappings_of_another_form_profile_or_version_are_refused() {
    let profile = profile("/srv/sessions");
    let file = "/srv/sessions/s.jsonl";
    let good = || SessionMapping::new("abc", "one".to_owned(), file.to_owned());
    assert_eq!(good().schema_version, 1);
    assert_eq!(good().profile_id, "centaur-safe");
    assert_eq!(good().omp_version, "18.3.0");
    assert!(validate_mapping(&profile, "abc", &good(), &present(file)).is_ok());
    assert!(check_mapping(&profile, "abc", &good()).is_ok());
    let mut others = vec![good(), good(), good(), good()];
    others[0].schema_version = 2;
    others[1].profile_id = "other".to_owned();
    others[2].omp_version = "18.3.1".to_owned();
    others[3].session_id = String::new();
    for other in &others {
        let error = validate_mapping(&profile, "abc", other, &present(file)).unwrap_err();
        assert_eq!(
            error.message(),
            "OMP protocol error: OMP resume mapping does not match thread, profile, or runtime \
             version"
        );
        assert!(check_mapping(&profile, "abc", other).is_err());
    }
    let outside = SessionMapping::new("abc", "one".to_owned(), "/etc/passwd".to_owned());
    assert!(check_mapping(&profile, "abc", &outside).is_err());
    assert!(validate_mapping(&profile, "abc", &good(), &present("/etc/passwd")).is_err());
}

#[test]
fn loading_follows_what_the_file_is() {
    let facts = |is_file, len| MetadataSeen::Found(FileFacts { is_file, len });
    assert!(examine_mapping_file(None, &facts(true, 32768)).unwrap());
    assert!(!examine_mapping_file(None, &MetadataSeen::NotFound).unwrap());
    assert!(examine_mapping_file(Some(true), &MetadataSeen::NotFound).is_err());
    let failed = examine_mapping_file(None, &MetadataSeen::Failed("denied".to_owned()));
    assert_eq!(failed.unwrap_err().message(), "denied");
    for bad in [facts(false, 1), facts(true, 32769)] {
        assert_eq!(
            examine_mapping_file(None, &bad).unwrap_err().message(),
            "OMP protocol error: OMP resume mapping is not a bounded regular file"
        );
    }
    assert!(check_mapping_bytes(&Ok(vec![0; 32768])).is_ok());
    assert_eq!(
        check_mapping_bytes(&Ok(vec![0; 32769])).unwrap_err().message(),
        "OMP protocol error: OMP resume mapping exceeds its size limit"
    );
    assert_eq!(check_mapping_bytes(&Err("gone".to_owned())).unwrap_err().message(), "gone");
}

#[test]
fn resuming_needs_a_mapping() {
    let profile = profile("/srv/sessions");
    let absent = || MappingFile {
        is_symlink: None,
        metadata: MetadataSeen::NotFound,
        read: Ok(Vec::new()),
        parsed: Err(String::new()),
        session: present("/"),
    };
    assert!(load(&profile, "t", absent()).unwrap().is_none());
    assert_eq!(
        load_resume_mapping(&profile, "t", absent()).unwrap_err().message(),
        "OMP protocol error: OMP resume mapping for thread t is unavailable"
    );
    let mapping =
        SessionMapping::new("t", "one".to_owned(), "/srv/sessions/s.jsonl".to_owned());
    let resumed = load_resume_mapping(&profile, "t", found(mapping, Vec::new())).unwrap();
    assert_eq!(resumed.session_id, "one");
    let garbled = accept_mapping(&profile, "t", Err("eof".to_owned()), &present("/"));
    assert_eq!(
        garbled.unwrap_err().message(),
        "OMP protocol error: OMP resume mapping is invalid: eof"
    );
}

#[test]
fn binaries_must_be_executable_files() {
    let facts = |is_file, mode| Ok(ExecutableFacts { is_file, mode });
    let path = || "/opt/omp".to_owned();
    assert_eq!(validate_executable(path(), facts(true, 0o100)).unwrap().path(), "/opt/omp");
    assert!(validate_executable(path(), facts(true, 0o010)).is_ok());
    assert!(validate_executable(path(), facts(true, 0o001)).is_ok());
    assert_eq!(
        validate_executable(path(), facts(true, 0o666)).unwrap_err().message(),
        "OMP protocol error: OMP profile binary is not executable"
    );
    assert_eq!(
        validate_executable(path(), facts(false, 0o777)).unwrap_err().message(),
        "OMP protocol error: OMP profile binary is not a regular file"
    );
    let failed = validate_executable(path(), Err("no such file".to_owned()));
    assert_eq!(failed.unwrap_err().message(), "no such file");
}
