use magicrune::schema::DefaultRule;
use magicrune::yaml::{
    extract_yaml_scalar_under, extract_yaml_u64_under, load_env_policy_from_policy,
    load_fs_allow_from_policy, load_fs_readonly_from_policy, load_limits_from_policy,
    load_net_allow_from_policy, load_policy, load_thresholds_from_policy, read_lists, ItemForm,
};

const POLICY: &str = "# a policy\nversion: 1\ncapabilities:\n  fs:\n    default: deny\n    allow:\n      - path: \"/tmp/**\"\n      - path: /var/data\n      - other: /x\n    readonly:\n      - \"/etc/**\"\n      - /usr/**\n  net:\n    default: deny\n    allow:\n      - addr: \"127.0.0.0/8\"\n      - \"*.example.com:443\"\n      - plain.example\n  env:\n    allow:\n      - LC_*\n      - HOME\n    deny:\n      - \"*SECRET*\"\nlimits:\n  cpu_ms: 5000\n  memory_mb: 128\n  wall_sec: 5\n  pids: 64\ngrading:\n  thresholds:\n    green: \"<=10\"\n    yellow: \"11..=50\"\n    red: \">=51\"\n";

fn strings(v: &[&str]) -> Vec<String> {
    v.iter().map(|s| s.to_string()).collect()
}

#[test]
fn scalars_under_a_section() {
    assert_eq!(extract_yaml_scalar_under(POLICY, "thresholds", "green"), Some("<=10".to_string()));
    assert_eq!(extract_yaml_scalar_under(POLICY, "thresholds", "yellow"), Some("11..=50".to_string()));
    assert_eq!(extract_yaml_scalar_under(POLICY, "limits", "wall_sec"), Some("5".to_string()));
    assert_eq!(extract_yaml_scalar_under(POLICY, "fs", "default"), Some("deny".to_string()));
    assert_eq!(extract_yaml_scalar_under(POLICY, "limits", "missing"), None);
    assert_eq!(extract_yaml_scalar_under(POLICY, "nowhere", "green"), None);
    // the key of a nested section is found under its parent too
    assert_eq!(extract_yaml_scalar_under(POLICY, "grading", "green"), Some("<=10".to_string()));
    // a section ends where the indent comes back
    assert_eq!(extract_yaml_scalar_under(POLICY, "fs", "wall_sec"), None);
    assert_eq!(extract_yaml_scalar_under("", "a", "b"), None);
}

#[test]
fn scalars_in_odd_texts() {
    let text = "a:\r\n  # k: no\r\n\r\n  k:   \"v w\"  \r\n  k: second\r\nb:\n  k: other";
    assert_eq!(extract_yaml_scalar_under(text, "a", "k"), Some("v w".to_string()));
    assert_eq!(extract_yaml_scalar_under(text, "b", "k"), Some("other".to_string()));
    // a key is a prefix of its line
    assert_eq!(extract_yaml_scalar_under("s:\n  keys: 1\n", "s", "key"), Some("s: 1".to_string()));
    assert_eq!(extract_yaml_scalar_under("s:\n  k::: \"\"x\"\"\n", "s", "k"), Some("x".to_string()));
    assert_eq!(extract_yaml_scalar_under("s:\n  k\n", "s", "k"), Some("".to_string()));
}

#[test]
fn numbers_under_a_section() {
    assert_eq!(extract_yaml_u64_under(POLICY, "limits", "wall_sec"), Some(5));
    assert_eq!(extract_yaml_u64_under(POLICY, "limits", "cpu_ms"), Some(5000));
    assert_eq!(extract_yaml_u64_under(POLICY, "limits", "missing"), None);
    // a line without a number is passed over
    let text = "limits:\n  wall_sec: soon\n  wall_sec: \"7\"\n";
    assert_eq!(extract_yaml_u64_under(text, "limits", "wall_sec"), Some(7));
    assert_eq!(extract_yaml_scalar_under(text, "limits", "wall_sec"), Some("soon".to_string()));
    assert_eq!(
        extract_yaml_u64_under("l:\n  n: 18446744073709551615\n", "l", "n"),
        Some(u64::MAX)
    );
    assert_eq!(extract_yaml_u64_under("l:\n  n: 18446744073709551616\n", "l", "n"), None);
    assert_eq!(extract_yaml_u64_under("l:\n  n: -1\n", "l", "n"), None);
}

#[test]
fn limits_and_thresholds() {
    let l = load_limits_from_policy(POLICY);
    assert_eq!((l.wall_sec, l.cpu_ms, l.memory_mb, l.pids), (5, 5000, 128, 64));
    let l = load_limits_from_policy("");
    assert_eq!((l.wall_sec, l.cpu_ms, l.memory_mb, l.pids), (60, 5000, 512, 256));
    let l = load_limits_from_policy("limits:\n  pids: 3\n");
    assert_eq!((l.wall_sec, l.cpu_ms, l.memory_mb, l.pids), (60, 5000, 512, 3));
    let t = load_thresholds_from_policy(POLICY);
    assert_eq!((t.green.as_str(), t.yellow.as_str(), t.red.as_str()), ("<=10", "11..=50", ">=51"));
    let t = load_thresholds_from_policy("");
    assert_eq!((t.green.as_str(), t.yellow.as_str(), t.red.as_str()), ("<=20", "21..=60", ">=61"));
    let t = load_thresholds_from_policy("grading:\n  green: \"<=5\"\n");
    assert_eq!((t.green.as_str(), t.yellow.as_str(), t.red.as_str()), ("<=5", "21..=60", ">=61"));
}

#[test]
fn lists_of_capabilities() {
    assert_eq!(
        load_net_allow_from_policy(POLICY),
        strings(&["127.0.0.0/8", "*.example.com:443", "plain.example"])
    );
    assert_eq!(load_fs_allow_from_policy(POLICY), strings(&["/tmp/**", "/var/data"]));
    assert_eq!(load_fs_readonly_from_policy(POLICY), strings(&["/etc/**", "/usr/**"]));
    assert_eq!(load_net_allow_from_policy(""), Vec::<String>::new());
    assert_eq!(load_fs_allow_from_policy("fs:\n  allow:\n    - path: /x\n"), Vec::<String>::new());
}

#[test]
fn items_that_are_not_indented_deeper_than_their_header() {
    let text = "capabilities:\n  net:\n    allow:\n    - addr: \"127.0.0.0/8\"\n    - addr: \"2001:db8::/32\"\nlimits:\n  wall_sec: 5\n";
    assert_eq!(load_net_allow_from_policy(text), strings(&["127.0.0.0/8"]));
}

#[test]
fn lists_of_the_environment() {
    let (allow, deny) = load_env_policy_from_policy(POLICY);
    // the list of denied names is read while that of allowed names is open
    assert_eq!(allow, strings(&["LC_*", "HOME", "*SECRET*"]));
    assert_eq!(deny, strings(&["*SECRET*"]));
    let (allow, deny) =
        load_env_policy_from_policy("capabilities:\n  env:\n    deny:\n      - A\n    allow:\n      - B\n");
    assert_eq!(allow, strings(&["B"]));
    assert_eq!(deny, strings(&["A", "B"]));
    let (a, b) = read_lists(POLICY, "env", "deny", None, ItemForm::Plain);
    assert_eq!(a, strings(&["*SECRET*"]));
    assert!(b.is_empty());
}

#[test]
fn a_whole_policy() {
    let p = load_policy(POLICY);
    assert_eq!(p.version, 1);
    assert!(p.is_valid());
    assert_eq!(p.limits.wall_sec, 5);
    assert_eq!(p.capabilities.net.allow.len(), 3);
    assert_eq!(p.capabilities.fs.allow, strings(&["/tmp/**", "/var/data"]));
    assert_eq!(p.capabilities.fs.readonly, strings(&["/etc/**", "/usr/**"]));
    assert_eq!(p.capabilities.env.deny, strings(&["*SECRET*"]));
    assert_eq!(p.grading.unwrap().thresholds.red, ">=51");
    let p = load_policy("");
    assert_eq!(p.version, 0);
    assert!(!p.is_valid());
    assert_eq!(p.limits.wall_sec, 60);
    assert_eq!(p.grading.unwrap().thresholds.green, "<=20");
}

#[test]
fn defaults_of_capabilities() {
    let p = load_policy(POLICY);
    assert!(matches!(p.capabilities.net.default_rule, DefaultRule::Deny));
    assert!(matches!(p.capabilities.fs.default_rule, DefaultRule::Deny));
    let p = load_policy("capabilities:\n  net:\n    default: allow\n  fs:\n    default: \"allow\"\n");
    assert!(matches!(p.capabilities.net.default_rule, DefaultRule::Allow));
    assert!(matches!(p.capabilities.fs.default_rule, DefaultRule::Allow));
    let p = load_policy("");
    assert!(matches!(p.capabilities.net.default_rule, DefaultRule::Deny));
}
