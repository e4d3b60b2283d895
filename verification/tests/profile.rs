use omp_harness::json::{Json, Member};
use omp_harness::loading::{
    check_root_link, choose_binary, choose_root, locate_binary, verify_binary_version,
    BinaryChoice, CheckedBinary, VersionRun,
};
use omp_harness::path::{
    components, extension, is_absolute, join_path, normalize_without_symlinks, same_path,
    starts_with,
};
use omp_harness::profile::{
    approved_env, check_session_path, check_state, parse_allowed_model_list, safe_tools,
    validate_contained_session_path, version_plan, EnvRule, OmpProfile, PathSeen, OMP_VERSION,
    PROFILE_ID,
};

fn checked() -> CheckedBinary {
    match choose_binary(Some("1"), None).unwrap() {
        BinaryChoice::Search(binary) => binary,
        BinaryChoice::Locate(_) => panic!("a bare name is searched for"),
    }
}

fn profile() -> OmpProfile {
    let run = VersionRun { success: true, stdout: "omp/18.3.0\n".to_owned() };
    let verified = verify_binary_version(checked(), Ok(run)).unwrap();
    let choice = choose_root(
        Some("anthropic/fake-model,anthropic/fake-model-2"),
        Some("/srv/sessions"),
    )
    .unwrap();
    OmpProfile::with_binary(verified, choice.models, choice.root)
}

fn text(s: &str) -> Json {
    Json::Text(s.to_owned())
}

fn object(members: Vec<(&str, Json)>) -> Json {
    Json::Object(
        members
            .into_iter()
            .map(|(name, value)| Member { name: name.to_owned(), value })
            .collect(),
    )
}

fn state(tools: &[&str], file: Option<&str>) -> Json {
    let tools = tools.iter().map(|name| object(vec![("name", text(name))])).collect();
    let mut members = vec![
        ("steeringMode", text("one-at-a-time")),
        ("followUpMode", text("one-at-a-time")),
        ("interruptMode", text("immediate")),
        ("dumpTools", Json::List(tools)),
    ];
    if let Some(file) = file {
        members.push(("sessionFile", text(file)));
    }
    object(members)
}

const TOOLS: [&str; 9] =
    ["write", "todo", "task", "read", "lsp", "grep", "glob", "edit", "bash"];

#[test]
fn parses_exact_operator_model_allowlist() {
    let models =
        parse_allowed_model_list("anthropic/fable-sonnet-4-5,openrouter/anthropic/fable")
            .unwrap();
    assert!(models.contains(&("anthropic".to_owned(), "fable-sonnet-4-5".to_owned())));
    assert!(models.contains(&("openrouter".to_owned(), "anthropic/fable".to_owned())));
    assert!(parse_allowed_model_list("anthropic").is_err());
    assert!(parse_allowed_model_list("anthropic/fable sonnet").is_err());
    assert!(parse_allowed_model_list("").is_err());
}

#[test]
fn allowlist_entries_are_trimmed_and_blank_ones_skipped() {
    let models = parse_allowed_model_list(" a/b ,, \t,\u{a0}a/b\u{3000},c/d").unwrap();
    assert_eq!(models.entries.len(), 2);
    assert!(models.contains(&("a".to_owned(), "b".to_owned())));
    assert!(models.contains(&("c".to_owned(), "d".to_owned())));
    assert!(!models.contains(&("a".to_owned(), "d".to_owned())));
    let message = |raw: &str| parse_allowed_model_list(raw).unwrap_err().message();
    assert_eq!(
        message("a/b,c"),
        "OMP protocol error: OMP allowlist entries must use provider/model syntax"
    );
    for raw in ["/b", "a/", "a b/c", "a/b\u{2003}c"] {
        assert_eq!(
            message(raw),
            "OMP protocol error: OMP allowlist contains an invalid provider/model"
        );
    }
    assert_eq!(
        message(" , "),
        "OMP protocol error: OMP provider/model allowlist may not be empty"
    );
}

#[test]
fn rejects_session_path_escape() {
    let root = "/srv/sessions";
    let seen = PathSeen::Absent { canonical_parent: Ok("/srv".to_owned()) };
    let error =
        validate_contained_session_path(root, &join_path(root, "../escape.jsonl"), &seen)
            .unwrap_err()
            .message();
    assert!(error.contains("escapes"));
}

#[test]
fn session_paths_must_lie_below_the_root_by_text_and_by_target() {
    let root = "/srv/sessions";
    let message = |path: &str, seen: PathSeen| {
        validate_contained_session_path(root, path, &seen).unwrap_err().message()
    };
    let at = |path: &str| PathSeen::Present { canonical: Ok(path.to_owned()) };
    let under = |path: &str| PathSeen::Absent { canonical_parent: Ok(path.to_owned()) };
    assert_eq!(
        message("s.jsonl", at("/srv/sessions/s.jsonl")),
        "OMP protocol error: OMP session path must be absolute"
    );
    assert_eq!(
        message("/..", at("/")),
        "OMP protocol error: OMP session path escapes its root"
    );
    assert_eq!(
        message("/srv/sessions2/s", at("/srv/sessions2/s")),
        "OMP protocol error: OMP session path escapes the operator session root"
    );
    assert_eq!(
        message("/srv/sessions/link", at("/etc/passwd")),
        "OMP protocol error: OMP session path resolves outside the operator session root"
    );
    assert_eq!(
        message("/srv/sessions/link/new", under("/etc")),
        "OMP protocol error: OMP session parent resolves outside the operator session root"
    );
    let failed = PathSeen::Present { canonical: Err("denied".to_owned()) };
    assert_eq!(message("/srv/sessions/a", failed), "denied");
    let failed = PathSeen::Absent { canonical_parent: Err("no parent there".to_owned()) };
    assert_eq!(message("/srv/sessions/a/b", failed), "no parent there");
    assert_eq!(
        validate_contained_session_path("/", "/", &under("/")).unwrap_err().message(),
        "OMP protocol error: OMP session path has no parent"
    );
    let target = "/srv/sessions/real.jsonl";
    assert_eq!(
        validate_contained_session_path(root, "/srv/sessions/x/../link", &at(target)).unwrap(),
        target
    );
    assert_eq!(
        validate_contained_session_path(root, "/srv/sessions/new", &under(root)).unwrap(),
        "/srv/sessions/new"
    );
    assert!(check_session_path(root, "/srv/sessions").is_ok());
    assert!(check_session_path(root, "/srv/./sessions//a").is_ok());
}

#[test]
fn paths_are_read_by_components() {
    assert_eq!(
        format!("{:?}", components("/a//./b/../c/")),
        "[RootDir, Normal(\"a\"), Normal(\"b\"), ParentDir, Normal(\"c\")]"
    );
    assert_eq!(format!("{:?}", components("./a/.")), "[CurDir, Normal(\"a\")]");
    assert_eq!(format!("{:?}", components("")), "[]");
    assert_eq!(
        format!("{:?}", normalize_without_symlinks("/a/./b/../c").unwrap()),
        "[RootDir, Normal(\"a\"), Normal(\"c\")]"
    );
    assert_eq!(format!("{:?}", normalize_without_symlinks("a/..").unwrap()), "[]");
    assert!(normalize_without_symlinks("a/../..").is_err());
    assert!(is_absolute("/a") && !is_absolute("a") && !is_absolute(""));
    assert!(starts_with("/a/b", "/a/") && !starts_with("/ab", "/a"));
    assert!(same_path("/a//b/.", "/a/b") && !same_path("a", "/a") && !same_path("/a", "/a/b"));
    assert_eq!(join_path("/a", "b"), "/a/b");
    assert_eq!(join_path("/a/", "b"), "/a/b");
    assert_eq!(join_path("", "b"), "b");
    assert_eq!(join_path("/a", "/b"), "/b");
    assert_eq!(extension("/x/a.tar.gz").as_deref(), Some("gz"));
    assert_eq!(extension("a.").as_deref(), Some(""));
    assert_eq!(extension("/x/.hidden"), None);
    assert_eq!(extension("/x.y/name"), None);
    assert_eq!(extension("/x.y/.."), None);
}

#[test]
fn paths_agree_with_the_standard_library() {
    for text in [
        "", "/", "a", "./a", "a/.", "a/..", "..", "../a", "/../a", "//a///b", "/a/./b/", ".", "...",
        "/a/...", "a.b/c.d", "/a/.b.c",
    ] {
        let path = std::path::Path::new(text);
        let expected: Vec<String> = path
            .components()
            .map(|component| match component {
                std::path::Component::RootDir => "RootDir".to_owned(),
                std::path::Component::CurDir => "CurDir".to_owned(),
                std::path::Component::ParentDir => "ParentDir".to_owned(),
                std::path::Component::Normal(name) => format!("Normal({name:?})"),
                std::path::Component::Prefix(_) => "Prefix".to_owned(),
            })
            .collect();
        let got: Vec<String> = components(text).iter().map(|c| format!("{c:?}")).collect();
        assert_eq!(got, expected, "{text}");
        assert_eq!(
            extension(text).as_deref(),
            path.extension().and_then(|e| e.to_str()),
            "{text}"
        );
        assert_eq!(join_path("/base", text), path_join("/base", text), "{text}");
    }
}

fn path_join(base: &str, name: &str) -> String {
    std::path::Path::new(base).join(name).to_str().unwrap().to_owned()
}

#[test]
fn profile_is_loaded_only_when_enabled() {
    for enabled in [None, Some(""), Some("true"), Some("0")] {
        assert_eq!(
            choose_binary(enabled, None).unwrap_err().message(),
            "OMP protocol error: OMP harness is disabled; the operator must set \
             CENTAUR_OMP_ENABLED=1"
        );
    }
    assert_eq!(checked().path(), "omp");
    match choose_binary(Some("1"), Some("./omp")).unwrap() {
        BinaryChoice::Locate(path) => assert_eq!(path, "./omp"),
        BinaryChoice::Search(_) => panic!("a path is followed"),
    }
    assert_eq!(locate_binary(Ok("/opt/omp".to_owned())).unwrap(), "/opt/omp");
    assert_eq!(
        locate_binary(Err("not found".to_owned())).unwrap_err().message(),
        "OMP profile centaur-safe binary is unavailable: not found"
    );
}

#[test]
fn binary_must_have_the_version_of_the_profile() {
    let run = |success, stdout: &str| Ok(VersionRun { success, stdout: stdout.to_owned() });
    assert!(verify_binary_version(checked(), run(true, " omp/18.3.0\r\n")).is_ok());
    for other in [run(false, "omp/18.3.0"), run(true, "omp/18.3.1"), run(true, "")] {
        assert_eq!(
            verify_binary_version(checked(), other).unwrap_err().message(),
            "OMP protocol error: OMP binary version mismatch: expected omp/18.3.0"
        );
    }
    assert_eq!(
        verify_binary_version(checked(), Err("no such file".to_owned())).unwrap_err().message(),
        "OMP protocol error: failed to execute OMP version check: no such file"
    );
    assert_eq!((PROFILE_ID, OMP_VERSION), ("centaur-safe", "18.3.0"));
}

#[test]
fn session_root_must_be_absolute_and_no_link() {
    assert_eq!(
        choose_root(None, None).unwrap_err().message(),
        "OMP protocol error: CENTAUR_OMP_ALLOWED_MODELS is required when OMP is enabled"
    );
    assert!(choose_root(Some("x"), None).is_err());
    assert_eq!(
        choose_root(Some("a/b"), Some("sessions")).unwrap_err().message(),
        "OMP protocol error: OMP session root must be absolute"
    );
    let choice = choose_root(Some("a/b"), None).unwrap();
    assert_eq!(choice.root, "/home/agent/.omp/centaur-sessions");
    assert_eq!(
        check_root_link(Some(true)).unwrap_err().message(),
        "OMP protocol error: OMP session root may not be a symlink"
    );
    assert!(check_root_link(Some(false)).is_ok() && check_root_link(None).is_ok());
}

#[test]
fn runtime_is_started_with_safe_tools_and_approved_environment() {
    let profile = profile();
    let plan = profile.command("/work");
    assert_eq!(plan.program, "omp");
    assert_eq!(plan.directory.as_deref(), Some("/work"));
    assert_eq!(
        plan.args,
        [
            "--mode",
            "rpc",
            "--no-extensions",
            "--no-skills",
            "--no-rules",
            "--no-title",
            "--session-dir",
            "/srv/sessions",
            "--tools",
            "bash,edit,glob,grep,lsp,read,task,todo,write",
        ]
    );
    let approved = approved_env();
    assert_eq!(approved.len(), 23);
    assert_eq!((approved[0].as_str(), approved[22].as_str()), ("HOME", "GOOGLE_APPLICATION_CREDENTIALS"));
    assert_eq!(plan.env.len(), 24);
    for (rule, name) in plan.env.iter().zip(&approved) {
        assert!(matches!(rule, EnvRule::Inherit { name: inherited } if inherited == name));
    }
    assert!(matches!(
        plan.env.last(),
        Some(EnvRule::Assign { name, value })
            if name == "PI_CODING_AGENT_DIR" && value == "/srv/sessions"
    ));
    let version = version_plan("/opt/omp");
    assert_eq!(version.program, "/opt/omp");
    assert_eq!(version.args, ["--version"]);
    assert_eq!(version.env.len(), 23);
    assert!(version.directory.is_none());
    assert_eq!(safe_tools().len(), 9);
}

#[test]
fn only_allowed_models_pass() {
    let profile = profile();
    assert!(profile.verify_allowed_model("anthropic", "fake-model").is_ok());
    assert_eq!(
        profile.verify_allowed_model("anthropic", "not-allowlisted").unwrap_err().message(),
        "OMP protocol error: OMP provider/model anthropic/not-allowlisted is not in the operator \
         allowlist"
    );
    assert_eq!(profile.session_root(), "/srv/sessions");
}

#[test]
fn state_must_be_that_of_the_profile() {
    let profile = profile();
    let file = "/srv/sessions/s.jsonl";
    let seen = PathSeen::Present { canonical: Ok(file.to_owned()) };
    let good = state(&TOOLS, Some(file));
    assert!(profile.verify_state(&good, &seen).is_ok());
    assert_eq!(check_state(&good).unwrap(), file);
    let mut doubled = TOOLS.to_vec();
    doubled.push("bash");
    assert!(profile.verify_state(&state(&doubled, Some(file)), &seen).is_ok());
    assert_eq!(
        check_state(&object(vec![])).unwrap_err().message(),
        "OMP protocol error: OMP effective queue modes do not match centaur-safe"
    );
    assert_eq!(
        check_state(&state(&TOOLS, None)).unwrap_err().message(),
        "OMP protocol error: OMP get_state omitted sessionFile"
    );
    let modes = || {
        vec![
            ("steeringMode", text("one-at-a-time")),
            ("followUpMode", text("one-at-a-time")),
            ("interruptMode", text("immediate")),
        ]
    };
    assert_eq!(
        check_state(&object(modes())).unwrap_err().message(),
        "OMP protocol error: OMP get_state omitted dumpTools"
    );
    let mut unnamed = modes();
    unnamed.push(("dumpTools", Json::List(vec![Json::Null])));
    assert_eq!(
        check_state(&object(unnamed)).unwrap_err().message(),
        "OMP protocol error: OMP dumpTools entry omitted name"
    );
    let elsewhere = PathSeen::Present { canonical: Ok("/etc/passwd".to_owned()) };
    assert!(profile.verify_state(&good, &elsewhere).is_err());
}

#[test]
fn differing_tools_are_listed_in_order() {
    assert_eq!(
        check_state(&state(&["web\"", "bash", "web\""], Some("/x"))).unwrap_err().message(),
        "OMP protocol error: OMP effective tools differ from centaur-safe: expected {\"bash\", \
         \"edit\", \"glob\", \"grep\", \"lsp\", \"read\", \"task\", \"todo\", \"write\"}, observed \
         {\"bash\", \"web\\\"\"}"
    );
    assert!(check_state(&state(&[], Some("/x"))).unwrap_err().message().ends_with("observed {}"));
}
