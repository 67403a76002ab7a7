//! The command line: its arguments, the numbers it reads from the
//! environment, and the shape that a strict run asks of a request.

use crate::runner::{EXIT_INPUT, EXIT_OK, EXIT_RUNTIME};
use crate::text::{
    find, find_from, parse_number, parse_unsigned, slice_chars, texts, to_chars, trim, trimmed,
};
use vstd::prelude::*;

verus! {

/// How the program is used.
pub const USAGE: &'static str =
    "Usage:\n  magicrune exec -f <request.json> [--policy <policy.yml>] [--timeout <secs>] [--seed <n>] [--out <result.json>] [--strict]\n  magicrune consume [--url <nats_host:port>] [--subject <run.req.*>]";

/// The name and version that `--version` prints.
pub const VERSION_LINE: &'static str = "magicrune 0.1.0";

/// The policy that is read where none is named.
pub const DEFAULT_POLICY_PATH: &'static str = "policies/default.policy.yml";

/// The broker that is used where none is named.
pub const DEFAULT_NATS_URL: &'static str = "127.0.0.1:4222";

/// The subject that requests arrive on where none is named.
pub const DEFAULT_REQUEST_SUBJECT: &'static str = "run.req.default";

/// What `exec` is asked to do.
#[derive(Debug, Clone)]
pub struct ExecArgs {
    pub in_path: Option<String>,
    pub out_path: Option<String>,
    pub policy_path: Option<String>,
    pub timeout: Option<u64>,
    pub seed: Option<u64>,
    pub strict: bool,
}

/// What the program is asked to do.
#[derive(Debug, Clone)]
pub enum CliCommand {
    /// Print the usage.
    Help,
    /// Print the version.
    Version,
    /// Consume requests from the broker.
    Consume { url: Option<String>, subject: Option<String> },
    /// Execute the request of a file.
    Exec(ExecArgs),
    /// `exec` without a request file.
    MissingFile,
    /// A command that the program does not know.
    UnknownCommand(String),
    /// A flag that `exec` does not know.
    UnknownFlag(String),
}

/// `exec` arguments as plain values.
pub struct ExecModel {
    pub in_path: Option<Seq<char>>,
    pub out_path: Option<Seq<char>>,
    pub policy_path: Option<Seq<char>>,
    pub timeout: Option<u64>,
    pub seed: Option<u64>,
    pub strict: bool,
}

/// A command as plain values.
pub enum CommandModel {
    Help,
    Version,
    Consume { url: Option<Seq<char>>, subject: Option<Seq<char>> },
    Exec(ExecModel),
    MissingFile,
    UnknownCommand(Seq<char>),
    UnknownFlag(Seq<char>),
}

impl View for ExecArgs {
    type V = ExecModel;

    open spec fn view(&self) -> ExecModel {
        ExecModel {
            in_path: crate::endpoint::opt_string(self.in_path),
            out_path: crate::endpoint::opt_string(self.out_path),
            policy_path: crate::endpoint::opt_string(self.policy_path),
            timeout: self.timeout,
            seed: self.seed,
            strict: self.strict,
        }
    }
}

impl View for CliCommand {
    type V = CommandModel;

    open spec fn view(&self) -> CommandModel {
        match self {
            CliCommand::Help => CommandModel::Help,
            CliCommand::Version => CommandModel::Version,
            CliCommand::Consume { url, subject } => CommandModel::Consume {
                url: crate::endpoint::opt_string(*url),
                subject: crate::endpoint::opt_string(*subject),
            },
            CliCommand::Exec(a) => CommandModel::Exec(a@),
            CliCommand::MissingFile => CommandModel::MissingFile,
            CliCommand::UnknownCommand(c) => CommandModel::UnknownCommand(c@),
            CliCommand::UnknownFlag(f) => CommandModel::UnknownFlag(f@),
        }
    }
}

/// The argument at an index, if there is one.
pub open spec fn arg_at(args: Seq<Seq<char>>, i: int) -> Option<Seq<char>> {
    if 0 <= i < args.len() {
        Some(args[i])
    } else {
        None
    }
}

/// The number that an argument writes, if it is there and writes one.
pub open spec fn number_arg(arg: Option<Seq<char>>) -> Option<u64> {
    match arg {
        Some(a) => match parse_unsigned(a, u64::MAX as int) {
            Some(n) => Some(n as u64),
            None => None,
        },
        None => None,
    }
}

/// The argument that follows the first `flag` from `i` on, where there is
/// such a flag and something follows it.
pub open spec fn value_after(args: Seq<Seq<char>>, flag: Seq<char>, i: int) -> Option<Seq<char>>
    decreases args.len() - i,
{
    if i < 0 || i >= args.len() {
        None
    } else if args[i] == flag {
        arg_at(args, i + 1)
    } else {
        value_after(args, flag, i + 1)
    }
}

/// The index behind a flag at `i` and its value: the end where the value
/// is missing.
pub open spec fn after_value(args: Seq<Seq<char>>, i: int) -> int {
    if i + 2 <= args.len() {
        i + 2
    } else {
        args.len() as int
    }
}

/// No arguments of `exec` read yet.
pub open spec fn exec_start() -> ExecModel {
    ExecModel {
        in_path: None,
        out_path: None,
        policy_path: None,
        timeout: None,
        seed: None,
        strict: false,
    }
}

/// What the arguments of `exec` from `i` on make of what was read before
/// them. A flag that takes a value takes the next argument, and loses an
/// earlier value where nothing follows it; the first unknown flag ends
/// the reading; arguments that are no flags are passed over.
pub open spec fn exec_scan(args: Seq<Seq<char>>, i: int, m: ExecModel) -> CommandModel
    decreases args.len() - i,
{
    if i < 0 || i >= args.len() {
        if m.in_path is Some {
            CommandModel::Exec(m)
        } else {
            CommandModel::MissingFile
        }
    } else {
        let a = args[i];
        let next = arg_at(args, i + 1);
        if a == "-f"@ || a == "--file"@ {
            exec_scan(
                args,
                after_value(args, i),
                ExecModel {
                    in_path: next,
                    out_path: m.out_path,
                    policy_path: m.policy_path,
                    timeout: m.timeout,
                    seed: m.seed,
                    strict: m.strict,
                },
            )
        } else if a == "--out"@ {
            exec_scan(
                args,
                after_value(args, i),
                ExecModel {
                    in_path: m.in_path,
                    out_path: next,
                    policy_path: m.policy_path,
                    timeout: m.timeout,
                    seed: m.seed,
                    strict: m.strict,
                },
            )
        } else if a == "--policy"@ {
            exec_scan(
                args,
                after_value(args, i),
                ExecModel {
                    in_path: m.in_path,
                    out_path: m.out_path,
                    policy_path: next,
                    timeout: m.timeout,
                    seed: m.seed,
                    strict: m.strict,
                },
            )
        } else if a == "--timeout"@ {
            exec_scan(
                args,
                after_value(args, i),
                ExecModel {
                    in_path: m.in_path,
                    out_path: m.out_path,
                    policy_path: m.policy_path,
                    timeout: number_arg(next),
                    seed: m.seed,
                    strict: m.strict,
                },
            )
        } else if a == "--seed"@ {
            exec_scan(
                args,
                after_value(args, i),
                ExecModel {
                    in_path: m.in_path,
                    out_path: m.out_path,
                    policy_path: m.policy_path,
                    timeout: m.timeout,
                    seed: number_arg(next),
                    strict: m.strict,
                },
            )
        } else if a == "--strict"@ {
            exec_scan(
                args,
                i + 1,
                ExecModel {
                    in_path: m.in_path,
                    out_path: m.out_path,
                    policy_path: m.policy_path,
                    timeout: m.timeout,
                    seed: m.seed,
                    strict: true,
                },
            )
        } else if a.len() > 0 && a[0] == '-' {
            CommandModel::UnknownFlag(a)
        } else {
            exec_scan(args, i + 1, m)
        }
    }
}

/// What the arguments ask for, the name of the program left off.
pub open spec fn command_of(args: Seq<Seq<char>>) -> CommandModel {
    if args.len() == 0 || args[0] == "-h"@ || args[0] == "--help"@ {
        CommandModel::Help
    } else if args[0] == "--version"@ {
        CommandModel::Version
    } else if args[0] == "consume"@ {
        CommandModel::Consume {
            url: value_after(args, "--url"@, 0),
            subject: value_after(args, "--subject"@, 0),
        }
    } else if args[0] == "exec"@ {
        exec_scan(args, 1, exec_start())
    } else {
        CommandModel::UnknownCommand(args[0])
    }
}

fn is(arg: &String, word: &str) -> (b: bool)
    ensures
        b == (arg@ == word@),
{
    crate::dedupe::str_same(arg.as_str(), word)
}

fn text_at(args: &Vec<String>, i: usize) -> (r: Option<String>)
    ensures
        crate::endpoint::opt_string(r) == arg_at(texts(args@), i as int),
{
    if i < args.len() {
        let s = args[i].clone();
        assert(texts(args@)[i as int] == s@);
        Some(s)
    } else {
        None
    }
}

fn number_at(args: &Vec<String>, i: usize) -> (r: Option<u64>)
    ensures
        r == number_arg(arg_at(texts(args@), i as int)),
{
    if i < args.len() {
        let c = to_chars(args[i].as_str());
        assert(texts(args@)[i as int] == c@);
        parse_number(c.as_slice(), u64::MAX)
    } else {
        None
    }
}

fn find_value_after(args: &Vec<String>, flag: &str) -> (r: Option<String>)
    ensures
        crate::endpoint::opt_string(r) == value_after(texts(args@), flag@, 0),
{
    let mut i: usize = 0;
    while i < args.len()
        invariant
            i <= args@.len(),
            value_after(texts(args@), flag@, 0) == value_after(texts(args@), flag@, i as int),
        decreases args@.len() - i,
    {
        assert(texts(args@)[i as int] == args@[i as int]@);
        if is(&args[i], flag) {
            return text_at(args, i + 1);
        }
        i += 1;
    }
    None
}

fn parse_exec(args: &Vec<String>) -> (r: CliCommand)
    ensures
        r@ == exec_scan(texts(args@), 1, exec_start()),
{
    let mut m = ExecArgs {
        in_path: None,
        out_path: None,
        policy_path: None,
        timeout: None,
        seed: None,
        strict: false,
    };
    let n: usize = args.len();
    let mut i: usize = 1;
    while i < n
        invariant
            1 <= i,
            n == args@.len(),
            n == texts(args@).len(),
            exec_scan(texts(args@), 1, exec_start()) == exec_scan(texts(args@), i as int, m@),
        decreases n - i,
    {
        assert(texts(args@)[i as int] == args@[i as int]@);
        let a = &args[i];
        if is(a, "-f") || is(a, "--file") {
            m.in_path = text_at(args, i + 1);
            i = if n - i >= 2 {
                i + 2
            } else {
                n
            };
        } else if is(a, "--out") {
            m.out_path = text_at(args, i + 1);
            i = if n - i >= 2 {
                i + 2
            } else {
                n
            };
        } else if is(a, "--policy") {
            m.policy_path = text_at(args, i + 1);
            i = if n - i >= 2 {
                i + 2
            } else {
                n
            };
        } else if is(a, "--timeout") {
            m.timeout = number_at(args, i + 1);
            i = if n - i >= 2 {
                i + 2
            } else {
                n
            };
        } else if is(a, "--seed") {
            m.seed = number_at(args, i + 1);
            i = if n - i >= 2 {
                i + 2
            } else {
                n
            };
        } else if is(a, "--strict") {
            m.strict = true;
            i += 1;
        } else {
            let c = to_chars(a.as_str());
            if c.len() > 0 && c[0] == '-' {
                return CliCommand::UnknownFlag(a.clone());
            }
            i += 1;
        }
    }
    if m.in_path.is_some() {
        CliCommand::Exec(m)
    } else {
        CliCommand::MissingFile
    }
}

/// Reads the arguments of the program, its name left off.
pub fn parse_args(args: &Vec<String>) -> (r: CliCommand)
    ensures
        r@ == command_of(texts(args@)),
{
    if args.len() == 0 {
        return CliCommand::Help;
    }
    assert(texts(args@)[0] == args@[0]@);
    let first = &args[0];
    if is(first, "-h") || is(first, "--help") {
        CliCommand::Help
    } else if is(first, "--version") {
        CliCommand::Version
    } else if is(first, "consume") {
        CliCommand::Consume {
            url: find_value_after(args, "--url"),
            subject: find_value_after(args, "--subject"),
        }
    } else if is(first, "exec") {
        parse_exec(args)
    } else {
        CliCommand::UnknownCommand(first.clone())
    }
}

/// The code that the program exits with before it has run anything: 0
/// for help and version, 1 for a missing file, 4 for what it does not
/// know; none for the commands that run.
pub fn early_exit_code(cmd: &CliCommand) -> (r: Option<i32>)
    ensures
        r == (match cmd@ {
            CommandModel::Help => Some(0i32),
            CommandModel::Version => Some(0i32),
            CommandModel::MissingFile => Some(1i32),
            CommandModel::UnknownCommand(_) => Some(4i32),
            CommandModel::UnknownFlag(_) => Some(4i32),
            _ => None,
        }),
{
    match cmd {
        CliCommand::Help => Some(EXIT_OK),
        CliCommand::Version => Some(EXIT_OK),
        CliCommand::MissingFile => Some(EXIT_INPUT),
        CliCommand::UnknownCommand(_) => Some(EXIT_RUNTIME),
        CliCommand::UnknownFlag(_) => Some(EXIT_RUNTIME),
        _ => None,
    }
}

/// The number that a variable of the environment holds, white space
/// around it left off, or the default where it is not set or holds none.
pub open spec fn number_or(value: Option<Seq<char>>, default: u64) -> u64 {
    match value {
        Some(v) => match parse_unsigned(trim(v), u64::MAX as int) {
            Some(n) => n as u64,
            None => default,
        },
        None => default,
    }
}

/// The number that a variable of the environment holds, or the default.
pub fn env_u64(value: Option<&str>, default: u64) -> (r: u64)
    ensures
        r == number_or(crate::endpoint::opt_text(value), default),
{
    match value {
        Some(v) => {
            let c = to_chars(v);
            let t = trimmed(c.as_slice());
            match parse_number(t.as_slice(), u64::MAX) {
                Some(n) => n,
                None => default,
            }
        },
        None => default,
    }
}

/// The whole number that a text writes: an optional sign, then digits,
/// within sixty-four bits.
pub open spec fn parse_signed(s: Seq<char>) -> Option<int> {
    if s.len() > 0 && s[0] == '-' {
        match parse_unsigned(s.skip(1), 0x8000_0000_0000_0000) {
            Some(n) => if s.len() > 1 && s[1] == '+' {
                None
            } else {
                Some(-n)
            },
            None => None,
        }
    } else {
        parse_unsigned(s, 0x7fff_ffff_ffff_ffff)
    }
}

/// The whole number that a variable of the environment holds, white
/// space around it left off, or the default.
pub open spec fn signed_or(value: Option<Seq<char>>, default: i64) -> i64 {
    match value {
        Some(v) => match parse_signed(trim(v)) {
            Some(n) => n as i64,
            None => default,
        },
        None => default,
    }
}

/// The whole number that a variable of the environment holds, or the
/// default.
pub fn env_i64(value: Option<&str>, default: i64) -> (r: i64)
    ensures
        r == signed_or(crate::endpoint::opt_text(value), default),
{
    match value {
        Some(v) => {
            let c = to_chars(v);
            let t = trimmed(c.as_slice());
            if t.len() > 0 && t[0] == '-' {
                let rest = slice_chars(t.as_slice(), 1, t.len());
                assert(rest@ =~= t@.skip(1));
                if rest.len() > 0 && rest[0] == '+' {
                    assert(t@[1] == '+');
                    return default;
                }
                match parse_number(rest.as_slice(), 0x8000_0000_0000_0000) {
                    Some(n) => {
                        if n == 0x8000_0000_0000_0000 {
                            i64::MIN
                        } else {
                            0 - (n as i64)
                        }
                    },
                    None => default,
                }
            } else {
                match parse_number(t.as_slice(), 0x7fff_ffff_ffff_ffff) {
                    Some(n) => n as i64,
                    None => default,
                }
            }
        },
        None => default,
    }
}

/// The inclusive range that a text writes as `lo..=hi` or `lo..hi`,
/// where the bounds are numbers and the first is not the larger.
pub open spec fn jitter_range(s: Seq<char>) -> Option<(u64, u64)> {
    let t = trim(s);
    match find_from(t, seq!['.', '.', '='], 0) {
        Some(k) => bounds(t.take(k), t.skip(k + 3)),
        None => match find_from(t, seq!['.', '.'], 0) {
            Some(k) => bounds(t.take(k), t.skip(k + 2)),
            None => None,
        },
    }
}

/// The two bounds of a range, where both are numbers in order.
pub open spec fn bounds(a: Seq<char>, b: Seq<char>) -> Option<(u64, u64)> {
    match (parse_unsigned(trim(a), u64::MAX as int), parse_unsigned(trim(b), u64::MAX as int)) {
        (Some(lo), Some(hi)) => if lo <= hi {
            Some((lo as u64, hi as u64))
        } else {
            None
        },
        _ => None,
    }
}

fn read_bounds(a: &[char], b: &[char]) -> (r: Option<(u64, u64)>)
    ensures
        r == bounds(a@, b@),
{
    let ta = trimmed(a);
    let tb = trimmed(b);
    match (parse_number(ta.as_slice(), u64::MAX), parse_number(tb.as_slice(), u64::MAX)) {
        (Some(lo), Some(hi)) => if lo <= hi {
            Some((lo, hi))
        } else {
            None
        },
        _ => None,
    }
}

/// Reads a range of delays.
pub fn parse_jitter(spec: &str) -> (r: Option<(u64, u64)>)
    ensures
        r == jitter_range(spec@),
{
    let c = to_chars(spec);
    let t = trimmed(c.as_slice());
    let n: usize = t.len();
    let closed: Vec<char> = vec!['.', '.', '='];
    assert(closed@ =~= seq!['.', '.', '=']);
    match find(t.as_slice(), closed.as_slice(), 0) {
        Some(k) => {
            proof {
                crate::text::lemma_find_from(t@, seq!['.', '.', '='], 0);
            }
            let a = slice_chars(t.as_slice(), 0, k);
            let b = slice_chars(t.as_slice(), k + 3, n);
            assert(a@ =~= t@.take(k as int));
            assert(b@ =~= t@.skip(k + 3));
            read_bounds(a.as_slice(), b.as_slice())
        },
        None => {
            let open: Vec<char> = vec!['.', '.'];
            assert(open@ =~= seq!['.', '.']);
            match find(t.as_slice(), open.as_slice(), 0) {
                Some(k) => {
                    proof {
                        crate::text::lemma_find_from(t@, seq!['.', '.'], 0);
                    }
                    let a = slice_chars(t.as_slice(), 0, k);
                    let b = slice_chars(t.as_slice(), k + 2, n);
                    assert(a@ =~= t@.take(k as int));
                    assert(b@ =~= t@.skip(k + 2));
                    read_bounds(a.as_slice(), b.as_slice())
                },
                None => None,
            }
        },
    }
}

/// A number stirred from a reading of the clock.
pub open spec fn stirred(now: u64) -> u64 {
    let a = now.wrapping_mul(6364136223846793005).wrapping_add(1);
    let b = (a ^ (a >> 33)).wrapping_mul(0xff51afd7ed558ccd);
    b ^ (b >> 33)
}

/// The delay in a range that a reading of the clock picks: none without
/// a range.
pub open spec fn jitter_of(range: Option<(u64, u64)>, now: u64) -> u64 {
    match range {
        Some((lo, hi)) => if lo > hi {
            lo
        } else if hi - lo == u64::MAX {
            stirred(now)
        } else {
            (lo + stirred(now) % ((hi - lo + 1) as u64)) as u64
        },
        None => 0,
    }
}

/// The delay in a range that a reading of the clock picks.
pub fn jitter_ms(range: Option<(u64, u64)>, now: u64) -> (r: u64)
    ensures
        r == jitter_of(range, now),
        match range {
            Some(p) => p.0 <= p.1 ==> p.0 <= r && r <= p.1,
            None => true,
        },
{
    match range {
        Some((lo, hi)) => {
            if lo > hi {
                return lo;
            }
            let a: u64 = now.wrapping_mul(6364136223846793005).wrapping_add(1);
            let b: u64 = (a ^ (a >> 33)).wrapping_mul(0xff51afd7ed558ccd);
            let x: u64 = b ^ (b >> 33);
            if hi - lo == u64::MAX {
                return x;
            }
            let span: u64 = hi - lo + 1;
            lo + x % span
        },
        None => 0,
    }
}

/// The kind of a value in a document.
#[derive(Debug, Clone, Copy, PartialEq, Eq, Structural)]
pub enum JsonKind {
    Null,
    Bool,
    Number,
    Text,
    Array,
    Object,
}

/// What is known of a number that should be a whole one.
#[derive(Debug, Clone, Copy, PartialEq, Eq)]
pub enum IntegerShape {
    /// Not a whole number, or no number at all.
    NotInteger,
    /// A whole number below zero.
    Negative,
    /// A whole number from zero up.
    Value(u64),
}

/// The shape of one entry of `files`.
#[derive(Debug, Clone, Copy)]
pub struct FileShape {
    pub is_object: bool,
    pub path: Option<JsonKind>,
    pub content_b64: Option<JsonKind>,
}

/// The shape of a request as a document: which keys it has and of what
/// kind their values are.
#[derive(Debug, Clone)]
pub struct RequestShape {
    pub cmd: Option<JsonKind>,
    pub stdin: Option<JsonKind>,
    pub env: Option<JsonKind>,
    pub env_values: Vec<JsonKind>,
    pub files: Option<JsonKind>,
    pub file_entries: Vec<FileShape>,
    pub policy_id: Option<JsonKind>,
    pub timeout_sec: Option<JsonKind>,
    pub timeout: IntegerShape,
    pub allow_net: Option<JsonKind>,
    pub allow_fs: Option<JsonKind>,
}

/// What a strict run finds wrong with the shape of a request.
#[derive(Debug, Clone, Copy, PartialEq, Eq)]
pub enum SchemaError {
    MissingCmd,
    MissingStdin,
    MissingEnv,
    MissingFiles,
    MissingPolicyId,
    MissingTimeoutSec,
    MissingAllowNet,
    MissingAllowFs,
    CmdNotString,
    StdinNotString,
    EnvNotObject,
    EnvValueNotScalar,
    FilesNotArray,
    FileNotObject,
    FilePathNotString,
    FileContentNotString,
    PolicyIdNotString,
    TimeoutNotInteger,
    TimeoutOutOfRange,
    AllowNetNotArray,
    AllowFsNotArray,
}

/// A scalar is a string, a number or a boolean.
pub open spec fn is_scalar(k: JsonKind) -> bool {
    k == JsonKind::Text || k == JsonKind::Number || k == JsonKind::Bool
}

/// What is wrong with one entry of `files`, if anything.
pub open spec fn file_shape_error(f: FileShape) -> Option<SchemaError> {
    if !f.is_object {
        Some(SchemaError::FileNotObject)
    } else if f.path != Some(JsonKind::Text) {
        Some(SchemaError::FilePathNotString)
    } else if f.content_b64 is Some && f.content_b64 != Some(JsonKind::Text) {
        Some(SchemaError::FileContentNotString)
    } else {
        None
    }
}

/// The first key that a request lacks, in the order in which a request
/// lists them.
pub open spec fn missing_key(s: RequestShape) -> Option<SchemaError> {
    if s.cmd is None {
        Some(SchemaError::MissingCmd)
    } else if s.stdin is None {
        Some(SchemaError::MissingStdin)
    } else if s.env is None {
        Some(SchemaError::MissingEnv)
    } else if s.files is None {
        Some(SchemaError::MissingFiles)
    } else if s.policy_id is None {
        Some(SchemaError::MissingPolicyId)
    } else if s.timeout_sec is None {
        Some(SchemaError::MissingTimeoutSec)
    } else if s.allow_net is None {
        Some(SchemaError::MissingAllowNet)
    } else if s.allow_fs is None {
        Some(SchemaError::MissingAllowFs)
    } else {
        None
    }
}

/// The first thing that is wrong with the shape of a request: a missing
/// key before any kind, and the kinds in the order of the keys. The
/// timeout is a whole number from 0 to 60.
pub open spec fn shape_error(s: RequestShape) -> Option<SchemaError> {
    let bad_env = crate::policy::first_index(s.env_values@, |k: JsonKind| !is_scalar(k), 0);
    let bad_file = crate::policy::first_index(
        s.file_entries@,
        |f: FileShape| file_shape_error(f) is Some,
        0,
    );
    if missing_key(s) is Some {
        missing_key(s)
    } else if s.cmd != Some(JsonKind::Text) {
        Some(SchemaError::CmdNotString)
    } else if s.stdin != Some(JsonKind::Text) {
        Some(SchemaError::StdinNotString)
    } else if s.env != Some(JsonKind::Object) {
        Some(SchemaError::EnvNotObject)
    } else if bad_env is Some {
        Some(SchemaError::EnvValueNotScalar)
    } else if s.files != Some(JsonKind::Array) {
        Some(SchemaError::FilesNotArray)
    } else if bad_file is Some {
        file_shape_error(s.file_entries@[bad_file->0])
    } else if s.policy_id != Some(JsonKind::Text) {
        Some(SchemaError::PolicyIdNotString)
    } else if s.timeout is NotInteger {
        Some(SchemaError::TimeoutNotInteger)
    } else if !(s.timeout matches IntegerShape::Value(t) && t <= 60) {
        Some(SchemaError::TimeoutOutOfRange)
    } else if s.allow_net != Some(JsonKind::Array) {
        Some(SchemaError::AllowNetNotArray)
    } else if s.allow_fs != Some(JsonKind::Array) {
        Some(SchemaError::AllowFsNotArray)
    } else {
        None
    }
}

fn kind_is(k: &Option<JsonKind>, want: JsonKind) -> (b: bool)
    ensures
        b == (*k == Some(want)),
{
    match k {
        Some(v) => *v == want,
        None => false,
    }
}

fn check_file_shape(f: &FileShape) -> (r: Option<SchemaError>)
    ensures
        r == file_shape_error(*f),
{
    if !f.is_object {
        return Some(SchemaError::FileNotObject);
    }
    if !kind_is(&f.path, JsonKind::Text) {
        return Some(SchemaError::FilePathNotString);
    }
    if f.content_b64.is_some() && !kind_is(&f.content_b64, JsonKind::Text) {
        return Some(SchemaError::FileContentNotString);
    }
    None
}

/// Checks the shape of a request and says what is wrong with it first.
#[verifier::loop_isolation(false)]
pub fn validate_shape(s: &RequestShape) -> (r: Result<(), SchemaError>)
    ensures
        match r {
            Ok(_) => shape_error(*s) is None,
            Err(e) => shape_error(*s) == Some(e),
        },
{
    if s.cmd.is_none() {
        return Err(SchemaError::MissingCmd);
    }
    if s.stdin.is_none() {
        return Err(SchemaError::MissingStdin);
    }
    if s.env.is_none() {
        return Err(SchemaError::MissingEnv);
    }
    if s.files.is_none() {
        return Err(SchemaError::MissingFiles);
    }
    if s.policy_id.is_none() {
        return Err(SchemaError::MissingPolicyId);
    }
    if s.timeout_sec.is_none() {
        return Err(SchemaError::MissingTimeoutSec);
    }
    if s.allow_net.is_none() {
        return Err(SchemaError::MissingAllowNet);
    }
    if s.allow_fs.is_none() {
        return Err(SchemaError::MissingAllowFs);
    }
    if !kind_is(&s.cmd, JsonKind::Text) {
        return Err(SchemaError::CmdNotString);
    }
    if !kind_is(&s.stdin, JsonKind::Text) {
        return Err(SchemaError::StdinNotString);
    }
    if !kind_is(&s.env, JsonKind::Object) {
        return Err(SchemaError::EnvNotObject);
    }
    let ghost bad_kind = |k: JsonKind| !is_scalar(k);
    let mut i: usize = 0;
    while i < s.env_values.len()
        invariant
            i <= s.env_values@.len(),
            bad_kind == (|k: JsonKind| !is_scalar(k)),
            crate::policy::first_index(s.env_values@, bad_kind, 0) == crate::policy::first_index(
                s.env_values@,
                bad_kind,
                i as int,
            ),
        decreases s.env_values@.len() - i,
    {
        let k = s.env_values[i];
        let scalar: bool = match k {
            JsonKind::Text => true,
            JsonKind::Number => true,
            JsonKind::Bool => true,
            _ => false,
        };
        if !scalar {
            assert(bad_kind(s.env_values@[i as int]));
            return Err(SchemaError::EnvValueNotScalar);
        }
        assert(!bad_kind(s.env_values@[i as int]));
        i += 1;
    }
    if !kind_is(&s.files, JsonKind::Array) {
        return Err(SchemaError::FilesNotArray);
    }
    let ghost bad_entry = |f: FileShape| file_shape_error(f) is Some;
    let mut j: usize = 0;
    while j < s.file_entries.len()
        invariant
            j <= s.file_entries@.len(),
            bad_entry == (|f: FileShape| file_shape_error(f) is Some),
            crate::policy::first_index(s.file_entries@, bad_entry, 0) == crate::policy::first_index(
                s.file_entries@,
                bad_entry,
                j as int,
            ),
        decreases s.file_entries@.len() - j,
    {
        match check_file_shape(&s.file_entries[j]) {
            Some(e) => {
                assert(bad_entry(s.file_entries@[j as int]));
                return Err(e);
            },
            None => {},
        }
        assert(!bad_entry(s.file_entries@[j as int]));
        j += 1;
    }
    if !kind_is(&s.policy_id, JsonKind::Text) {
        return Err(SchemaError::PolicyIdNotString);
    }
    match s.timeout {
        IntegerShape::NotInteger => {
            return Err(SchemaError::TimeoutNotInteger);
        },
        IntegerShape::Negative => {
            return Err(SchemaError::TimeoutOutOfRange);
        },
        IntegerShape::Value(t) => {
            if t > 60 {
                return Err(SchemaError::TimeoutOutOfRange);
            }
        },
    }
    if !kind_is(&s.allow_net, JsonKind::Array) {
        return Err(SchemaError::AllowNetNotArray);
    }
    if !kind_is(&s.allow_fs, JsonKind::Array) {
        return Err(SchemaError::AllowFsNotArray);
    }
    Ok(())
}

/// What is wrong with a request, in words.
pub open spec fn schema_error_words(e: SchemaError) -> Seq<char> {
    match e {
        SchemaError::MissingCmd => "schema: missing key: cmd"@,
        SchemaError::MissingStdin => "schema: missing key: stdin"@,
        SchemaError::MissingEnv => "schema: missing key: env"@,
        SchemaError::MissingFiles => "schema: missing key: files"@,
        SchemaError::MissingPolicyId => "schema: missing key: policy_id"@,
        SchemaError::MissingTimeoutSec => "schema: missing key: timeout_sec"@,
        SchemaError::MissingAllowNet => "schema: missing key: allow_net"@,
        SchemaError::MissingAllowFs => "schema: missing key: allow_fs"@,
        SchemaError::CmdNotString => "schema: cmd must be string"@,
        SchemaError::StdinNotString => "schema: stdin must be string"@,
        SchemaError::EnvNotObject => "schema: env must be object"@,
        SchemaError::EnvValueNotScalar => "schema: env values must be string/number/bool"@,
        SchemaError::FilesNotArray => "schema: files must be array"@,
        SchemaError::FileNotObject => "schema: file entry must be object"@,
        SchemaError::FilePathNotString => "schema: file.path must be string"@,
        SchemaError::FileContentNotString => "schema: file.content_b64 must be string"@,
        SchemaError::PolicyIdNotString => "schema: policy_id must be string"@,
        SchemaError::TimeoutNotInteger => "schema: timeout_sec must be integer"@,
        SchemaError::TimeoutOutOfRange => "schema: timeout_sec must be 0..=60"@,
        SchemaError::AllowNetNotArray => "schema: allow_net must be array"@,
        SchemaError::AllowFsNotArray => "schema: allow_fs must be array"@,
    }
}

/// What is wrong with a request, in words.
pub fn schema_error_text(e: SchemaError) -> (s: &'static str)
    ensures
        s@ == schema_error_words(e),
{
    match e {
        SchemaError::MissingCmd => "schema: missing key: cmd",
        SchemaError::MissingStdin => "schema: missing key: stdin",
        SchemaError::MissingEnv => "schema: missing key: env",
        SchemaError::MissingFiles => "schema: missing key: files",
        SchemaError::MissingPolicyId => "schema: missing key: policy_id",
        SchemaError::MissingTimeoutSec => "schema: missing key: timeout_sec",
        SchemaError::MissingAllowNet => "schema: missing key: allow_net",
        SchemaError::MissingAllowFs => "schema: missing key: allow_fs",
        SchemaError::CmdNotString => "schema: cmd must be string",
        SchemaError::StdinNotString => "schema: stdin must be string",
        SchemaError::EnvNotObject => "schema: env must be object",
        SchemaError::EnvValueNotScalar => "schema: env values must be string/number/bool",
        SchemaError::FilesNotArray => "schema: files must be array",
        SchemaError::FileNotObject => "schema: file entry must be object",
        SchemaError::FilePathNotString => "schema: file.path must be string",
        SchemaError::FileContentNotString => "schema: file.content_b64 must be string",
        SchemaError::PolicyIdNotString => "schema: policy_id must be string",
        SchemaError::TimeoutNotInteger => "schema: timeout_sec must be integer",
        SchemaError::TimeoutOutOfRange => "schema: timeout_sec must be 0..=60",
        SchemaError::AllowNetNotArray => "schema: allow_net must be array",
        SchemaError::AllowFsNotArray => "schema: allow_fs must be array",
    }
}


} // verus!
