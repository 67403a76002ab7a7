use magicrune::policy::{
    evaluate, materialize, merged_grants, path_is_valid, path_under_tmp, PolicyError,
};
use magicrune::schema::{EnvEntry, EnvValue, FileEntry, PolicyDoc, SpellRequest};

fn request(cmd: &str) -> SpellRequest {
    SpellRequest {
        cmd: Some(cmd.to_string()),
        stdin: Some(String::new()),
        env: Some(vec![]),
        files: Some(vec![]),
        policy_id: Some("default".to_string()),
        timeout_sec: Some(5),
        allow_net: Some(vec![]),
        allow_fs: Some(vec![]),
        seed: None,
    }
}

fn var(name: &str, value: &str) -> EnvEntry {
    EnvEntry { name: name.to_string(), value: EnvValue::Text(value.to_string()) }
}

fn file(path: &str, content_b64: &str) -> FileEntry {
    FileEntry { path: path.to_string(), content_b64: content_b64.to_string() }
}

#[test]
fn a_plain_request_gets_its_plan() {
    let mut req = request("echo hi");
    req.stdin = Some("input".to_string());
    req.env = Some(vec![
        var("A", "1"),
        EnvEntry { name: "N".to_string(), value: EnvValue::Number("42".to_string()) },
        EnvEntry { name: "B".to_string(), value: EnvValue::Flag(true) },
    ]);
    let policy = PolicyDoc::default();
    let plan = evaluate(&req, &policy).unwrap();
    assert_eq!(plan.cmd, "echo hi");
    assert_eq!(plan.stdin, "input");
    assert_eq!(plan.limits.wall_sec, 5);
    assert_eq!(plan.limits.cpu_ms, 5000);
    assert_eq!(plan.limits.memory_mb, 512);
    assert_eq!(plan.limits.pids, 256);
    assert!(plan.files.is_empty());
    assert_eq!(
        plan.env,
        vec![
            ("HOME".to_string(), "/tmp".to_string()),
            ("TMPDIR".to_string(), "/tmp".to_string()),
            ("A".to_string(), "1".to_string()),
            ("N".to_string(), "42".to_string()),
            ("B".to_string(), "true".to_string()),
        ]
    );
}

#[test]
fn an_empty_request_passes_with_the_wall_cap_of_the_policy() {
    let plan = evaluate(&SpellRequest::default(), &PolicyDoc::default()).unwrap();
    assert_eq!(plan.cmd, "");
    assert_eq!(plan.limits.wall_sec, 60);
    assert_eq!(plan.env.len(), 2);
}

#[test]
fn denied_variables_come_first() {
    let mut req = request("curl http://example.com");
    req.env = Some(vec![var("PATH", "x"), var("AWS_SECRET", "y"), var("MY_SECRET", "z")]);
    req.timeout_sec = Some(1000);
    let mut policy = PolicyDoc::default();
    policy.capabilities.env.deny = vec!["*SECRET*".to_string()];
    policy.capabilities.env.allow = vec!["NOTHING".to_string()];
    match evaluate(&req, &policy) {
        Err(PolicyError::EnvDenied(name)) => assert_eq!(name, "AWS_SECRET"),
        other => panic!("{:?}", other),
    }
}

#[test]
fn variables_outside_a_list_of_allowed_names() {
    let mut req = request("echo hi");
    req.env = Some(vec![var("LC_ALL", "C"), var("FOO", "1")]);
    let mut policy = PolicyDoc::default();
    policy.capabilities.env.allow = vec!["LC_*".to_string(), "HOME".to_string()];
    match evaluate(&req, &policy) {
        Err(PolicyError::EnvNotAllowed(name)) => assert_eq!(name, "FOO"),
        other => panic!("{:?}", other),
    }
    // an empty list of allowed names allows every name
    policy.capabilities.env.allow = vec![];
    assert!(evaluate(&req, &policy).is_ok());
}

#[test]
fn network_without_any_grant() {
    let req = request("curl http://example.com");
    match evaluate(&req, &PolicyDoc::default()) {
        Err(PolicyError::NetNotAllowed) => {}
        other => panic!("{:?}", other),
    }
    // a command may reach for the network without naming an endpoint
    let req = request("wget example.com");
    assert!(matches!(evaluate(&req, &PolicyDoc::default()), Err(PolicyError::NetNotAllowed)));
}

#[test]
fn endpoints_that_no_entry_admits() {
    let mut req = request("curl https://api.example.com/ http://other.test/x");
    req.allow_net = Some(vec!["*.example.com:443".to_string()]);
    match evaluate(&req, &PolicyDoc::default()) {
        Err(PolicyError::NetEndpointNotAllowed(h)) => assert_eq!(h, "other.test:80"),
        other => panic!("{:?}", other),
    }
    let mut policy = PolicyDoc::default();
    policy.capabilities.net.allow = vec!["other.test".to_string()];
    assert!(evaluate(&req, &policy).is_ok());
    assert_eq!(
        merged_grants(&req, &policy),
        vec!["*.example.com:443".to_string(), "other.test".to_string()]
    );
}

#[test]
fn the_first_endpoint_that_the_command_names_is_reported() {
    let mut req = request("curl https://a.test/ http://b.test/");
    req.allow_net = Some(vec!["other.test".to_string()]);
    match evaluate(&req, &PolicyDoc::default()) {
        Err(PolicyError::NetEndpointNotAllowed(h)) => assert_eq!(h, "a.test:443"),
        other => panic!("{:?}", other),
    }
    req.allow_net = Some(vec!["a.test:400-500".to_string()]);
    match evaluate(&req, &PolicyDoc::default()) {
        Err(PolicyError::NetEndpointNotAllowed(h)) => assert_eq!(h, "b.test:80"),
        other => panic!("{:?}", other),
    }
    req.allow_net = Some(vec!["a.test:400-500".to_string(), "b.test:*".to_string()]);
    assert!(evaluate(&req, &PolicyDoc::default()).is_ok());
}

#[test]
fn timeout_at_and_over_the_limit() {
    let mut policy = PolicyDoc::default();
    policy.limits.wall_sec = 2;
    let mut req = request("sleep 30");
    req.timeout_sec = Some(2);
    assert_eq!(evaluate(&req, &policy).unwrap().limits.wall_sec, 2);
    req.timeout_sec = Some(3);
    assert!(matches!(evaluate(&req, &policy), Err(PolicyError::TimeoutExceedsLimit)));
    req.timeout_sec = Some(0);
    assert_eq!(evaluate(&req, &policy).unwrap().limits.wall_sec, 0);
    req.timeout_sec = Some(u64::MAX);
    assert!(matches!(evaluate(&req, &policy), Err(PolicyError::TimeoutExceedsLimit)));
}

#[test]
fn invalid_paths() {
    for path in ["relative/x", "", "tmp/x", "/tmp/../etc/passwd", "/tmp/a..b", ".."] {
        let mut req = request("echo hi");
        req.files = Some(vec![file(path, "")]);
        req.allow_fs = Some(vec!["*".to_string()]);
        match evaluate(&req, &PolicyDoc::default()) {
            Err(PolicyError::PathInvalid(p)) => assert_eq!(p, path),
            other => panic!("{:?} {:?}", path, other),
        }
        assert!(!path_is_valid(path));
    }
    assert!(path_is_valid("/tmp/x"));
    assert!(path_is_valid("/"));
    assert!(path_is_valid("/a.b/c."));
}

#[test]
fn readonly_paths_and_paths_that_nothing_allows() {
    let mut req = request("echo hi");
    req.files = Some(vec![file("/tmp/ok", ""), file("/etc/passwd", "")]);
    match evaluate(&req, &PolicyDoc::default()) {
        Err(PolicyError::PathNotAllowed(p)) => assert_eq!(p, "/etc/passwd"),
        other => panic!("{:?}", other),
    }
    req.allow_fs = Some(vec!["/etc/**".to_string()]);
    assert!(evaluate(&req, &PolicyDoc::default()).is_ok());
    let mut policy = PolicyDoc::default();
    policy.capabilities.fs.readonly = vec!["/etc/**".to_string()];
    match evaluate(&req, &policy) {
        Err(PolicyError::PathReadonly(p)) => assert_eq!(p, "/etc/passwd"),
        other => panic!("{:?}", other),
    }
    req.allow_fs = Some(vec![]);
    policy.capabilities.fs.readonly = vec![];
    policy.capabilities.fs.allow = vec!["/etc/passwd".to_string()];
    assert!(evaluate(&req, &policy).is_ok());
    // read-only wins over /tmp
    policy.capabilities.fs.readonly = vec!["/tmp/ok".to_string()];
    assert!(matches!(evaluate(&req, &policy), Err(PolicyError::PathReadonly(_))));
}

#[test]
fn paths_under_tmp() {
    assert!(path_under_tmp("/tmp/x"));
    assert!(path_under_tmp("/tmp/"));
    assert!(!path_under_tmp("/tmp"));
    assert!(!path_under_tmp("/tmpx/y"));
    assert!(!path_under_tmp("/var/tmp/x"));
}

#[test]
fn files_are_decoded() {
    let mut req = request("cat /tmp/a");
    req.files = Some(vec![
        file("/tmp/a", "aGVsbG8="),
        file("/tmp/empty", ""),
        file("/tmp/bad", "not base64!"),
        file("/tmp/b", "AAEC"),
    ]);
    let plan = evaluate(&req, &PolicyDoc::default()).unwrap();
    assert_eq!(plan.files.len(), 3);
    assert_eq!(plan.files[0].path, "/tmp/a");
    assert_eq!(plan.files[0].content, b"hello".to_vec());
    assert_eq!(plan.files[1].path, "/tmp/empty");
    assert!(plan.files[1].content.is_empty());
    assert_eq!(plan.files[2].path, "/tmp/b");
    assert_eq!(plan.files[2].content, vec![0u8, 1, 2]);
}

#[test]
fn one_file_from_its_decoded_content() {
    let op = materialize("/tmp/a", "aGk=", Some(b"hi".to_vec())).unwrap();
    assert_eq!(op.path, "/tmp/a");
    assert_eq!(op.content, b"hi".to_vec());
    assert!(materialize("/tmp/a", "???", None).is_none());
    let op = materialize("/tmp/a", "", None).unwrap();
    assert!(op.content.is_empty());
    let op = materialize("/tmp/a", "", Some(vec![1])).unwrap();
    assert!(op.content.is_empty());
}

#[test]
fn violations_in_words() {
    assert_eq!(PolicyError::EnvDenied("K".to_string()).message(), "policy: env deny K");
    assert_eq!(PolicyError::EnvNotAllowed("K".to_string()).message(), "policy: env not allowed K");
    assert_eq!(
        PolicyError::NetNotAllowed.message(),
        "policy: network is not allowed (no allowlist)"
    );
    assert_eq!(
        PolicyError::NetEndpointNotAllowed("a:80".to_string()).message(),
        "policy: network to a:80 not allowed"
    );
    assert_eq!(
        PolicyError::TimeoutExceedsLimit.message(),
        "policy: timeout_sec exceeds wall_sec limit"
    );
    assert_eq!(
        PolicyError::PathReadonly("/etc/x".to_string()).message(),
        "policy: write to readonly /etc/x"
    );
    assert_eq!(
        PolicyError::PathNotAllowed("/etc/x".to_string()).message(),
        "policy: write denied for /etc/x"
    );
    assert!(PolicyError::PathInvalid("x".to_string()).message().ends_with(": x"));
    assert_eq!(PolicyError::EnvDenied("K".to_string()).kind(), "env");
    assert_eq!(PolicyError::NetNotAllowed.kind(), "net");
    assert_eq!(PolicyError::TimeoutExceedsLimit.kind(), "timeout");
    assert_eq!(PolicyError::PathInvalid("x".to_string()).kind(), "fs");
}
