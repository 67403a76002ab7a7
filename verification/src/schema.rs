//! Requests, policies and results as the service exchanges them.

use crate::text::texts;
use vstd::prelude::*;

verus! {

/// The value of an environment variable in a request: a scalar.
#[derive(Debug, Clone)]
pub enum EnvValue {
    /// A string.
    Text(String),
    /// A number, as the request writes it.
    Number(String),
    /// A boolean.
    Flag(bool),
}

impl EnvValue {
    /// The text that the variable is set to.
    pub open spec fn rendered(self) -> Seq<char> {
        match self {
            EnvValue::Text(s) => s@,
            EnvValue::Number(s) => s@,
            EnvValue::Flag(b) => if b {
                "true"@
            } else {
                "false"@
            },
        }
    }

    /// The text that the variable is set to.
    pub fn render(&self) -> (r: String)
        ensures
            r@ == self.rendered(),
    {
        match self {
            EnvValue::Text(s) => s.clone(),
            EnvValue::Number(s) => s.clone(),
            EnvValue::Flag(b) => if *b {
                "true".to_owned()
            } else {
                "false".to_owned()
            },
        }
    }
}

/// One environment variable of a request.
#[derive(Debug, Clone)]
pub struct EnvEntry {
    pub name: String,
    pub value: EnvValue,
}

/// One file that a request asks to be written before the command runs.
#[derive(Debug, Clone)]
pub struct FileEntry {
    pub path: String,
    pub content_b64: String,
}

/// A request to run a command.
#[derive(Debug, Clone)]
pub struct SpellRequest {
    pub cmd: Option<String>,
    pub stdin: Option<String>,
    pub env: Option<Vec<EnvEntry>>,
    pub files: Option<Vec<FileEntry>>,
    pub policy_id: Option<String>,
    pub timeout_sec: Option<u64>,
    pub allow_net: Option<Vec<String>>,
    pub allow_fs: Option<Vec<String>>,
    pub seed: Option<u64>,
}

/// What a request says, as plain values: absent texts are empty and absent
/// lists have no entries.
pub struct RequestModel {
    pub cmd: Seq<char>,
    pub stdin: Seq<char>,
    pub env: Seq<(Seq<char>, Seq<char>)>,
    pub files: Seq<(Seq<char>, Seq<char>)>,
    pub timeout_sec: Option<u64>,
    pub allow_net: Seq<Seq<char>>,
    pub allow_fs: Seq<Seq<char>>,
    pub seed: Option<u64>,
}

/// The characters of an optional string; none where it is absent.
pub open spec fn text_or_empty(s: Option<String>) -> Seq<char> {
    match s {
        Some(t) => t@,
        None => Seq::empty(),
    }
}

/// The entries of an optional list of strings; none where it is absent.
pub open spec fn list_or_empty(v: Option<Vec<String>>) -> Seq<Seq<char>> {
    match v {
        Some(l) => texts(l@),
        None => Seq::empty(),
    }
}

/// Names and values of a list of environment entries.
pub open spec fn env_pairs(v: Seq<EnvEntry>) -> Seq<(Seq<char>, Seq<char>)> {
    v.map_values(|e: EnvEntry| (e.name@, e.value.rendered()))
}

/// Paths and encoded contents of a list of file entries.
pub open spec fn file_pairs(v: Seq<FileEntry>) -> Seq<(Seq<char>, Seq<char>)> {
    v.map_values(|f: FileEntry| (f.path@, f.content_b64@))
}

impl View for SpellRequest {
    type V = RequestModel;

    open spec fn view(&self) -> RequestModel {
        RequestModel {
            cmd: text_or_empty(self.cmd),
            stdin: text_or_empty(self.stdin),
            env: match self.env {
                Some(e) => env_pairs(e@),
                None => Seq::empty(),
            },
            files: match self.files {
                Some(f) => file_pairs(f@),
                None => Seq::empty(),
            },
            timeout_sec: self.timeout_sec,
            allow_net: list_or_empty(self.allow_net),
            allow_fs: list_or_empty(self.allow_fs),
            seed: self.seed,
        }
    }
}

impl Default for SpellRequest {
    fn default() -> (r: Self)
        ensures
            r.cmd is None,
            r.stdin is None,
            r.env is None,
            r.files is None,
            r.policy_id is None,
            r.timeout_sec is None,
            r.allow_net is None,
            r.allow_fs is None,
            r.seed is None,
    {
        SpellRequest {
            cmd: None,
            stdin: None,
            env: None,
            files: None,
            policy_id: None,
            timeout_sec: None,
            allow_net: None,
            allow_fs: None,
            seed: None,
        }
    }
}

/// The largest wall-clock cap in seconds that a request may ask for.
pub const MAX_TIMEOUT_SEC: u64 = 60;

/// The outcome of a run.
#[derive(Debug, Clone)]
pub struct SpellResult {
    pub run_id: String,
    pub verdict: String,
    pub risk_score: u32,
    pub exit_code: i32,
    pub duration_ms: u64,
    pub stdout_trunc: bool,
    pub sbom_attestation: Option<String>,
}

/// The three range expressions that map a risk score to a verdict.
#[derive(Debug, Clone)]
pub struct GradingThresholds {
    pub green: String,
    pub yellow: String,
    pub red: String,
}

impl Default for GradingThresholds {
    fn default() -> (r: Self)
        ensures
            r.green@.len() == 0,
            r.yellow@.len() == 0,
            r.red@.len() == 0,
    {
        GradingThresholds { green: String::new(), yellow: String::new(), red: String::new() }
    }
}

impl GradingThresholds {
    /// The thresholds that hold where a policy names none: green up to
    /// 20, yellow from 21 to 60, red from 61.
    pub fn standard() -> (r: Self)
        ensures
            r.green@ == "<=20"@,
            r.yellow@ == "21..=60"@,
            r.red@ == ">=61"@,
    {
        GradingThresholds {
            green: "<=20".to_owned(),
            yellow: "21..=60".to_owned(),
            red: ">=61".to_owned(),
        }
    }
}

/// The grading section of a policy.
#[derive(Debug, Clone)]
pub struct GradingCfg {
    pub thresholds: GradingThresholds,
}

impl Default for GradingCfg {
    fn default() -> (r: Self)
        ensures
            r.thresholds.green@.len() == 0,
            r.thresholds.yellow@.len() == 0,
            r.thresholds.red@.len() == 0,
    {
        GradingCfg { thresholds: GradingThresholds::default() }
    }
}

/// The resource ceilings of a policy.
#[derive(Debug, Clone, Copy)]
pub struct PolicyLimits {
    pub wall_sec: u64,
    pub cpu_ms: u64,
    pub memory_mb: u64,
    pub pids: u64,
}

impl Default for PolicyLimits {
    fn default() -> (r: Self)
        ensures
            r.wall_sec == 60,
            r.cpu_ms == 5000,
            r.memory_mb == 512,
            r.pids == 256,
    {
        PolicyLimits { wall_sec: 60, cpu_ms: 5000, memory_mb: 512, pids: 256 }
    }
}

/// What holds of a resource class where no entry speaks of it.
#[derive(Debug, Clone, Copy)]
pub enum DefaultRule {
    Allow,
    Deny,
}

/// The network capabilities of a policy.
#[derive(Debug, Clone)]
pub struct NetCapabilities {
    pub default_rule: DefaultRule,
    pub allow: Vec<String>,
}

/// The filesystem capabilities of a policy.
#[derive(Debug, Clone)]
pub struct FsCapabilities {
    pub default_rule: DefaultRule,
    pub allow: Vec<String>,
    pub readonly: Vec<String>,
}

/// The environment capabilities of a policy.
#[derive(Debug, Clone)]
pub struct EnvCapabilities {
    pub allow: Vec<String>,
    pub deny: Vec<String>,
}

/// The capabilities of a policy.
#[derive(Debug, Clone)]
pub struct Capabilities {
    pub net: NetCapabilities,
    pub fs: FsCapabilities,
    pub env: EnvCapabilities,
}

impl Default for Capabilities {
    fn default() -> (r: Self)
        ensures
            r.net.allow@.len() == 0,
            r.fs.allow@.len() == 0,
            r.fs.readonly@.len() == 0,
            r.env.allow@.len() == 0,
            r.env.deny@.len() == 0,
    {
        Capabilities {
            net: NetCapabilities { default_rule: DefaultRule::Deny, allow: Vec::new() },
            fs: FsCapabilities {
                default_rule: DefaultRule::Deny,
                allow: Vec::new(),
                readonly: Vec::new(),
            },
            env: EnvCapabilities { allow: Vec::new(), deny: Vec::new() },
        }
    }
}

/// A policy: what requests may do and how their risk is graded.
#[derive(Debug, Clone)]
pub struct PolicyDoc {
    pub version: u8,
    pub limits: PolicyLimits,
    pub capabilities: Capabilities,
    pub grading: Option<GradingCfg>,
}

/// What a policy says, as plain values.
pub struct PolicyModel {
    pub version: u8,
    pub limits: PolicyLimits,
    pub net_allow: Seq<Seq<char>>,
    pub fs_allow: Seq<Seq<char>>,
    pub fs_readonly: Seq<Seq<char>>,
    pub env_allow: Seq<Seq<char>>,
    pub env_deny: Seq<Seq<char>>,
    pub thresholds: Option<(Seq<char>, Seq<char>, Seq<char>)>,
}

impl View for PolicyDoc {
    type V = PolicyModel;

    open spec fn view(&self) -> PolicyModel {
        PolicyModel {
            version: self.version,
            limits: self.limits,
            net_allow: texts(self.capabilities.net.allow@),
            fs_allow: texts(self.capabilities.fs.allow@),
            fs_readonly: texts(self.capabilities.fs.readonly@),
            env_allow: texts(self.capabilities.env.allow@),
            env_deny: texts(self.capabilities.env.deny@),
            thresholds: match self.grading {
                Some(g) => Some((g.thresholds.green@, g.thresholds.yellow@, g.thresholds.red@)),
                None => None,
            },
        }
    }
}

impl Default for PolicyDoc {
    fn default() -> (r: Self)
        ensures
            r.version == 0,
            r.grading is None,
            r.limits.wall_sec == 60,
            r.limits.cpu_ms == 5000,
            r.limits.memory_mb == 512,
            r.limits.pids == 256,
            r@.net_allow.len() == 0,
            r@.fs_allow.len() == 0,
            r@.fs_readonly.len() == 0,
            r@.env_allow.len() == 0,
            r@.env_deny.len() == 0,
    {
        PolicyDoc {
            version: 0,
            limits: PolicyLimits::default(),
            capabilities: Capabilities::default(),
            grading: None,
        }
    }
}

impl PolicyDoc {
    /// A policy is valid where its version is 1 and every limit positive.
    pub open spec fn valid(&self) -> bool {
        &&& self.version == 1
        &&& self.limits.wall_sec > 0
        &&& self.limits.cpu_ms > 0
        &&& self.limits.memory_mb > 0
        &&& self.limits.pids > 0
    }

    /// Whether the policy is valid.
    pub fn is_valid(&self) -> (b: bool)
        ensures
            b == self.valid(),
    {
        self.version == 1 && self.limits.wall_sec > 0 && self.limits.cpu_ms > 0
            && self.limits.memory_mb > 0 && self.limits.pids > 0
    }
}

/// The colour that grading gives a run.
#[derive(Debug, Clone, Copy, PartialEq, Eq)]
pub enum Verdict {
    Green,
    Yellow,
    Red,
}

/// The name of a verdict as results carry it.
pub open spec fn verdict_name(v: Verdict) -> Seq<char> {
    match v {
        Verdict::Green => "green"@,
        Verdict::Yellow => "yellow"@,
        Verdict::Red => "red"@,
    }
}

impl Verdict {
    /// The name of the verdict as results carry it.
    pub fn name(self) -> (r: &'static str)
        ensures
            r@ == verdict_name(self),
    {
        match self {
            Verdict::Green => "green",
            Verdict::Yellow => "yellow",
            Verdict::Red => "red",
        }
    }

    /// The exit code that the program ends with under this verdict.
    pub fn exit_code(self) -> (r: i32)
        ensures
            r == verdict_exit_code(self),
    {
        match self {
            Verdict::Green => 0,
            Verdict::Yellow => 10,
            Verdict::Red => 20,
        }
    }
}

/// The exit code that stands for a verdict.
pub open spec fn verdict_exit_code(v: Verdict) -> i32 {
    match v {
        Verdict::Green => 0,
        Verdict::Yellow => 10,
        Verdict::Red => 20,
    }
}

/// The three names are different texts.
pub proof fn lemma_verdict_names_differ()
    ensures
        verdict_name(Verdict::Green) != verdict_name(Verdict::Yellow),
        verdict_name(Verdict::Green) != verdict_name(Verdict::Red),
        verdict_name(Verdict::Yellow) != verdict_name(Verdict::Red),
{
    reveal_strlit("green");
    reveal_strlit("yellow");
    reveal_strlit("red");
    assert("green"@.len() == 5);
    assert("yellow"@.len() == 6);
    assert("red"@.len() == 3);
}

} // verus!
