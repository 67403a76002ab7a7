use magicrune::cli::{
    early_exit_code, env_i64, env_u64, jitter_ms, parse_args, parse_jitter, schema_error_text,
    validate_shape, CliCommand, FileShape, IntegerShape, JsonKind, RequestShape, SchemaError,
    USAGE, VERSION_LINE,
};
use magicrune::worker::{publish_plan, PUBLISH_TIMEOUT_SEC};

fn args(v: &[&str]) -> Vec<String> {
    v.iter().map(|s| s.to_string()).collect()
}

fn good_shape() -> RequestShape {
    RequestShape {
        cmd: Some(JsonKind::Text),
        stdin: Some(JsonKind::Text),
        env: Some(JsonKind::Object),
        env_values: vec![JsonKind::Text, JsonKind::Number, JsonKind::Bool],
        files: Some(JsonKind::Array),
        file_entries: vec![
            FileShape { is_object: true, path: Some(JsonKind::Text), content_b64: None },
            FileShape { is_object: true, path: Some(JsonKind::Text), content_b64: Some(JsonKind::Text) },
        ],
        policy_id: Some(JsonKind::Text),
        timeout_sec: Some(JsonKind::Number),
        timeout: IntegerShape::Value(5),
        allow_net: Some(JsonKind::Array),
        allow_fs: Some(JsonKind::Array),
    }
}

#[test]
fn test_cli_help() {
    assert!(matches!(parse_args(&args(&[])), CliCommand::Help));
    assert!(matches!(parse_args(&args(&["-h"])), CliCommand::Help));
    assert!(matches!(parse_args(&args(&["--help", "exec"])), CliCommand::Help));
    assert_eq!(early_exit_code(&CliCommand::Help), Some(0));
    assert!(USAGE.contains("Usage"));
    assert!(USAGE.contains("magicrune exec -f <request.json>"));
    assert!(USAGE.contains("magicrune consume"));
}

#[test]
fn test_exit_codes() {
    let v = parse_args(&args(&["--version"]));
    assert!(matches!(v, CliCommand::Version));
    assert_eq!(early_exit_code(&v), Some(0));
    assert_eq!(VERSION_LINE, "magicrune 0.1.0");
    assert_eq!(early_exit_code(&parse_args(&args(&["exec"]))), Some(1));
    assert_eq!(early_exit_code(&parse_args(&args(&["frobnicate"]))), Some(4));
    assert_eq!(early_exit_code(&parse_args(&args(&["exec", "--bogus"]))), Some(4));
    assert_eq!(early_exit_code(&parse_args(&args(&["exec", "-f", "x"]))), None);
    assert_eq!(early_exit_code(&parse_args(&args(&["consume"]))), None);
}

#[test]
fn exec_arguments() {
    match parse_args(&args(&[
        "exec", "-f", "req.json", "--policy", "p.yml", "--timeout", "7", "--seed", "42", "--out",
        "out.json", "--strict", "stray",
    ])) {
        CliCommand::Exec(a) => {
            assert_eq!(a.in_path.as_deref(), Some("req.json"));
            assert_eq!(a.policy_path.as_deref(), Some("p.yml"));
            assert_eq!(a.out_path.as_deref(), Some("out.json"));
            assert_eq!(a.timeout, Some(7));
            assert_eq!(a.seed, Some(42));
            assert!(a.strict);
        }
        other => panic!("{:?}", other),
    }
    match parse_args(&args(&["exec", "--file", "a", "--timeout", "soon", "--seed"])) {
        CliCommand::Exec(a) => {
            assert_eq!(a.in_path.as_deref(), Some("a"));
            assert_eq!(a.timeout, None);
            assert_eq!(a.seed, None);
            assert!(!a.strict);
            assert_eq!(a.out_path, None);
        }
        other => panic!("{:?}", other),
    }
    // the value of a flag is never read as a flag
    match parse_args(&args(&["exec", "-f", "--strict"])) {
        CliCommand::Exec(a) => {
            assert_eq!(a.in_path.as_deref(), Some("--strict"));
            assert!(!a.strict);
        }
        other => panic!("{:?}", other),
    }
    // a later flag without a value takes the earlier value away
    assert!(matches!(parse_args(&args(&["exec", "-f", "a", "-f"])), CliCommand::MissingFile));
    match parse_args(&args(&["exec", "-x", "-f", "a"])) {
        CliCommand::UnknownFlag(f) => assert_eq!(f, "-x"),
        other => panic!("{:?}", other),
    }
    match parse_args(&args(&["run"])) {
        CliCommand::UnknownCommand(c) => assert_eq!(c, "run"),
        other => panic!("{:?}", other),
    }
}

#[test]
fn consume_arguments() {
    match parse_args(&args(&["consume", "--url", "nats:4222", "--subject", "run.req.x"])) {
        CliCommand::Consume { url, subject } => {
            assert_eq!(url.as_deref(), Some("nats:4222"));
            assert_eq!(subject.as_deref(), Some("run.req.x"));
        }
        other => panic!("{:?}", other),
    }
    match parse_args(&args(&["consume", "--subject"])) {
        CliCommand::Consume { url, subject } => {
            assert_eq!(url, None);
            assert_eq!(subject, None);
        }
        other => panic!("{:?}", other),
    }
    match parse_args(&args(&["consume", "--url", "a", "--url", "b"])) {
        CliCommand::Consume { url, .. } => assert_eq!(url.as_deref(), Some("a")),
        other => panic!("{:?}", other),
    }
}

#[test]
fn numbers_of_the_environment() {
    assert_eq!(env_u64(None, 120), 120);
    assert_eq!(env_u64(Some("30"), 120), 30);
    assert_eq!(env_u64(Some(" 30\n"), 120), 30);
    assert_eq!(env_u64(Some(""), 120), 120);
    assert_eq!(env_u64(Some("-1"), 120), 120);
    assert_eq!(env_u64(Some("1e3"), 120), 120);
    assert_eq!(env_u64(Some("18446744073709551616"), 1), 1);
    assert_eq!(env_i64(None, 2048), 2048);
    assert_eq!(env_i64(Some("-1"), 2048), -1);
    assert_eq!(env_i64(Some("+7"), 2048), 7);
    assert_eq!(env_i64(Some("-+7"), 2048), 2048);
    assert_eq!(env_i64(Some("-"), 2048), 2048);
    assert_eq!(env_i64(Some("9223372036854775807"), 0), i64::MAX);
    assert_eq!(env_i64(Some("9223372036854775808"), 0), 0);
    assert_eq!(env_i64(Some("-9223372036854775808"), 0), i64::MIN);
    assert_eq!(env_i64(Some("-9223372036854775809"), 0), 0);
}

#[test]
fn ranges_of_delays() {
    assert_eq!(parse_jitter("200..=800"), Some((200, 800)));
    assert_eq!(parse_jitter(" 1 .. 2 "), Some((1, 2)));
    assert_eq!(parse_jitter("5..=5"), Some((5, 5)));
    assert_eq!(parse_jitter("8..=2"), None);
    assert_eq!(parse_jitter("8"), None);
    assert_eq!(parse_jitter("a..b"), None);
    assert_eq!(parse_jitter("1..=x"), None);
    assert_eq!(parse_jitter(""), None);
    assert_eq!(jitter_ms(None, 12345), 0);
    assert_eq!(jitter_ms(Some((7, 7)), 12345), 7);
    for now in [0u64, 1, 99, 1 << 40, u64::MAX] {
        let j = jitter_ms(Some((200, 800)), now);
        assert!((200..=800).contains(&j));
        assert_eq!(j, jitter_ms(Some((200, 800)), now));
        let _ = jitter_ms(Some((0, u64::MAX)), now);
    }
    let x0 = {
        let mut x = 0u64.wrapping_mul(6364136223846793005).wrapping_add(1);
        x ^= x >> 33;
        x = x.wrapping_mul(0xff51afd7ed558ccd);
        x ^= x >> 33;
        x
    };
    assert_eq!(jitter_ms(Some((200, 800)), 0), 200 + x0 % 601);
}

#[test]
fn chaos_missing_required_fields() {
    assert!(validate_shape(&good_shape()).is_ok());
    let mut s = good_shape();
    s.stdin = None;
    s.files = None;
    assert_eq!(validate_shape(&s), Err(SchemaError::MissingStdin));
    let mut s = good_shape();
    s.allow_fs = None;
    s.cmd = Some(JsonKind::Number);
    assert_eq!(validate_shape(&s), Err(SchemaError::MissingAllowFs));
    assert_eq!(schema_error_text(SchemaError::MissingAllowFs), "schema: missing key: allow_fs");
}

#[test]
fn kinds_are_checked_in_the_order_of_the_keys() {
    let mut s = good_shape();
    s.cmd = Some(JsonKind::Number);
    s.stdin = Some(JsonKind::Null);
    assert_eq!(validate_shape(&s), Err(SchemaError::CmdNotString));
    let mut s = good_shape();
    s.env_values = vec![JsonKind::Text, JsonKind::Array];
    s.files = Some(JsonKind::Object);
    assert_eq!(validate_shape(&s), Err(SchemaError::EnvValueNotScalar));
    let mut s = good_shape();
    s.env_values = vec![JsonKind::Null];
    assert_eq!(validate_shape(&s), Err(SchemaError::EnvValueNotScalar));
    let mut s = good_shape();
    s.file_entries[1].content_b64 = Some(JsonKind::Number);
    assert_eq!(validate_shape(&s), Err(SchemaError::FileContentNotString));
    s.file_entries[0].path = None;
    assert_eq!(validate_shape(&s), Err(SchemaError::FilePathNotString));
    s.file_entries[0].is_object = false;
    assert_eq!(validate_shape(&s), Err(SchemaError::FileNotObject));
    let mut s = good_shape();
    s.allow_net = Some(JsonKind::Text);
    s.allow_fs = Some(JsonKind::Text);
    assert_eq!(validate_shape(&s), Err(SchemaError::AllowNetNotArray));
}

#[test]
fn chaos_timeout_enforcement() {
    let mut s = good_shape();
    s.timeout = IntegerShape::Value(60);
    assert!(validate_shape(&s).is_ok());
    s.timeout = IntegerShape::Value(0);
    assert!(validate_shape(&s).is_ok());
    s.timeout = IntegerShape::Value(61);
    assert_eq!(validate_shape(&s), Err(SchemaError::TimeoutOutOfRange));
    s.timeout = IntegerShape::Negative;
    assert_eq!(validate_shape(&s), Err(SchemaError::TimeoutOutOfRange));
    s.timeout = IntegerShape::NotInteger;
    assert_eq!(validate_shape(&s), Err(SchemaError::TimeoutNotInteger));
    assert_eq!(
        schema_error_text(SchemaError::TimeoutOutOfRange),
        "schema: timeout_sec must be 0..=60"
    );
}

#[test]
fn same_request_and_seed_yield_same_run_id() {
    let payload = b"{\"cmd\":\"echo hi\"}";
    let a = publish_plan(payload, Some(7));
    let b = publish_plan(payload, Some(7));
    assert_eq!(a.run_id, b.run_id);
    assert_eq!(a.msg_id, b.msg_id);
    assert_eq!(a.result_subject, format!("run.res.{}", a.run_id));
    assert_eq!(a.ack_subject, format!("run.ack.{}", a.run_id));
    assert_eq!(a.msg_id, magicrune::hash::sha256_hex(payload));
    assert_ne!(a.run_id, publish_plan(payload, Some(8)).run_id);
    assert_eq!(PUBLISH_TIMEOUT_SEC, 5);
}

#[test]
fn every_missing_key_and_every_wrong_kind() {
    let cases: Vec<(fn(&mut RequestShape), SchemaError, &str)> = vec![
        (|s| s.cmd = None, SchemaError::MissingCmd, "schema: missing key: cmd"),
        (|s| s.stdin = None, SchemaError::MissingStdin, "schema: missing key: stdin"),
        (|s| s.env = None, SchemaError::MissingEnv, "schema: missing key: env"),
        (|s| s.files = None, SchemaError::MissingFiles, "schema: missing key: files"),
        (|s| s.policy_id = None, SchemaError::MissingPolicyId, "schema: missing key: policy_id"),
        (
            |s| s.timeout_sec = None,
            SchemaError::MissingTimeoutSec,
            "schema: missing key: timeout_sec",
        ),
        (|s| s.allow_net = None, SchemaError::MissingAllowNet, "schema: missing key: allow_net"),
        (|s| s.allow_fs = None, SchemaError::MissingAllowFs, "schema: missing key: allow_fs"),
        (|s| s.cmd = Some(JsonKind::Null), SchemaError::CmdNotString, "schema: cmd must be string"),
        (
            |s| s.stdin = Some(JsonKind::Array),
            SchemaError::StdinNotString,
            "schema: stdin must be string",
        ),
        (
            |s| s.env = Some(JsonKind::Array),
            SchemaError::EnvNotObject,
            "schema: env must be object",
        ),
        (
            |s| s.env_values = vec![JsonKind::Object],
            SchemaError::EnvValueNotScalar,
            "schema: env values must be string/number/bool",
        ),
        (
            |s| s.files = Some(JsonKind::Object),
            SchemaError::FilesNotArray,
            "schema: files must be array",
        ),
        (
            |s| s.file_entries[0].is_object = false,
            SchemaError::FileNotObject,
            "schema: file entry must be object",
        ),
        (
            |s| s.file_entries[0].path = Some(JsonKind::Number),
            SchemaError::FilePathNotString,
            "schema: file.path must be string",
        ),
        (
            |s| s.file_entries[0].content_b64 = Some(JsonKind::Bool),
            SchemaError::FileContentNotString,
            "schema: file.content_b64 must be string",
        ),
        (
            |s| s.policy_id = Some(JsonKind::Number),
            SchemaError::PolicyIdNotString,
            "schema: policy_id must be string",
        ),
        (
            |s| s.timeout = IntegerShape::NotInteger,
            SchemaError::TimeoutNotInteger,
            "schema: timeout_sec must be integer",
        ),
        (
            |s| s.timeout = IntegerShape::Value(61),
            SchemaError::TimeoutOutOfRange,
            "schema: timeout_sec must be 0..=60",
        ),
        (
            |s| s.allow_net = Some(JsonKind::Object),
            SchemaError::AllowNetNotArray,
            "schema: allow_net must be array",
        ),
        (
            |s| s.allow_fs = Some(JsonKind::Text),
            SchemaError::AllowFsNotArray,
            "schema: allow_fs must be array",
        ),
    ];
    for (spoil, error, words) in cases {
        let mut s = good_shape();
        spoil(&mut s);
        assert_eq!(validate_shape(&s), Err(error));
        assert_eq!(schema_error_text(error), words);
    }
}
