//! The sandboxed executor: what it is asked to enforce, what it reports,
//! and the decisions it takes before and while a child runs. Every system
//! call is left to the caller, who is told what to do next.

use crate::policy::ExecutionPlan;
use crate::runner::RunEnd;
use crate::text::{joined, decimal, from_chars, push_decimal, push_str_chars, texts};
use vstd::prelude::*;

verus! {

/// The backend that runs a command.
#[derive(Debug, Clone, Copy, PartialEq, Eq)]
pub enum SandboxKind {
    Wasi,
    Linux,
}

/// The caps that the executor enforces on a child.
#[derive(Debug, Clone, Copy)]
pub struct SandboxSpec {
    pub wall_sec: u64,
    pub cpu_ms: u64,
    pub memory_mb: u64,
    pub pids: u64,
}

/// What a child left behind.
#[derive(Debug, Clone)]
pub struct SandboxOutcome {
    pub exit_code: i32,
    pub stdout: Vec<u8>,
    pub stderr: Vec<u8>,
}

impl SandboxOutcome {
    /// The outcome of a run that produced nothing: exit code 0 and no
    /// output.
    pub fn empty() -> (r: Self)
        ensures
            r.exit_code == 0,
            r.stdout@.len() == 0,
            r.stderr@.len() == 0,
    {
        SandboxOutcome { exit_code: 0, stdout: Vec::new(), stderr: Vec::new() }
    }
}

/// A switch of the environment is on where its variable is set to `1`.
pub open spec fn switched_on(value: Option<Seq<char>>) -> bool {
    value == Some(seq!['1'])
}

/// Whether a switch of the environment is on.
pub fn flag_on(value: Option<&str>) -> (b: bool)
    ensures
        b == switched_on(crate::endpoint::opt_text(value)),
{
    match value {
        Some(v) => {
            let c = crate::text::to_chars(v);
            if c.len() == 1 && c[0] == '1' {
                assert(c@ =~= seq!['1']);
                true
            } else {
                assert(c@ != seq!['1']) by {
                    if c@ == seq!['1'] {
                        assert(seq!['1'].len() == 1);
                        assert(seq!['1'][0] == '1');
                    }
                }
                false
            }
        },
        None => false,
    }
}

/// The backend to use: WASI where the environment forces it, the native
/// one on Linux where it is built in, and WASI everywhere else.
pub open spec fn backend_for(force_wasm: Option<Seq<char>>, linux_native: bool) -> SandboxKind {
    if switched_on(force_wasm) {
        SandboxKind::Wasi
    } else if linux_native {
        SandboxKind::Linux
    } else {
        SandboxKind::Wasi
    }
}

/// Selects the backend from the value of `MAGICRUNE_FORCE_WASM` and from
/// whether the native sandbox of Linux is available.
pub fn detect_sandbox(force_wasm: Option<&str>, linux_native: bool) -> (kind: SandboxKind)
    ensures
        kind == backend_for(crate::endpoint::opt_text(force_wasm), linux_native),
{
    if flag_on(force_wasm) {
        SandboxKind::Wasi
    } else if linux_native {
        SandboxKind::Linux
    } else {
        SandboxKind::Wasi
    }
}

/// Whether a child is started for a command.
#[derive(Debug, Clone, Copy, PartialEq, Eq)]
pub enum Launch {
    /// No child: a dry run, a command of white space only, or a backend
    /// that runs modules and not commands.
    Skip,
    /// A child under the native sandbox.
    Native,
}

/// Whether a child is started for a command: not in a dry run, which the
/// switch `MAGICRUNE_DRY_RUN` asks for, not for a command of white space
/// only, and only by the native backend.
pub open spec fn launch_of(
    dry_run: Option<Seq<char>>,
    cmd: Seq<char>,
    force_wasm: Option<Seq<char>>,
    linux_native: bool,
) -> Launch {
    if switched_on(dry_run) || crate::text::trim(cmd).len() == 0 {
        Launch::Skip
    } else if backend_for(force_wasm, linux_native) == SandboxKind::Linux {
        Launch::Native
    } else {
        Launch::Skip
    }
}

/// Decides whether a child is started for a command.
pub fn launch_for(
    dry_run: Option<&str>,
    cmd: &str,
    force_wasm: Option<&str>,
    linux_native: bool,
) -> (l: Launch)
    ensures
        l == launch_of(
            crate::endpoint::opt_text(dry_run),
            cmd@,
            crate::endpoint::opt_text(force_wasm),
            linux_native,
        ),
{
    if flag_on(dry_run) {
        return Launch::Skip;
    }
    let c = crate::text::to_chars(cmd);
    let t = crate::text::trimmed(c.as_slice());
    if t.len() == 0 {
        return Launch::Skip;
    }
    match detect_sandbox(force_wasm, linux_native) {
        SandboxKind::Linux => Launch::Native,
        SandboxKind::Wasi => Launch::Skip,
    }
}

/// A set of namespaces to leave the parent's.
#[derive(Debug, Clone, Copy, PartialEq, Eq)]
pub struct NamespaceSet {
    pub user: bool,
    pub pid: bool,
    pub net: bool,
    pub mount: bool,
    pub uts: bool,
    pub ipc: bool,
}

/// The number of namespace sets that are tried.
pub const NAMESPACE_ATTEMPTS: usize = 3;

/// The set of namespaces of the attempt with this number: all six, then
/// all but the user namespace, then neither user nor network. Later
/// attempts are the same as the last.
pub open spec fn attempt_set(i: int) -> NamespaceSet {
    NamespaceSet { user: i <= 0, pid: true, net: i <= 1, mount: true, uts: true, ipc: true }
}

/// The set of namespaces to try in the attempt with this number.
pub fn namespace_attempt(i: usize) -> (s: NamespaceSet)
    ensures
        s == attempt_set(i as int),
{
    NamespaceSet { user: i == 0, pid: true, net: i <= 1, mount: true, uts: true, ipc: true }
}

/// What follows from trying to isolate the child.
#[derive(Debug, Clone, Copy, PartialEq, Eq)]
pub enum Isolation {
    /// The attempt with this number was accepted.
    Isolated(usize),
    /// Every attempt was rejected and the child runs without isolation.
    Unisolated,
    /// Every attempt was rejected and strict mode forbids running.
    Fatal,
}

/// The index of the first attempt from `i` on that was accepted.
pub open spec fn first_accepted(accepted: Seq<bool>, i: int) -> Option<int>
    decreases accepted.len() - i,
{
    if i < 0 || i >= accepted.len() {
        None
    } else if accepted[i] {
        Some(i)
    } else {
        first_accepted(accepted, i + 1)
    }
}

/// The isolation that a run of attempts gives: the first accepted one
/// counts; with none the child runs unisolated, which strict mode takes
/// for fatal.
pub open spec fn isolation_of(accepted: Seq<bool>, strict: bool) -> Isolation {
    match first_accepted(accepted, 0) {
        Some(i) => Isolation::Isolated(i as usize),
        None => if strict {
            Isolation::Fatal
        } else {
            Isolation::Unisolated
        },
    }
}

/// Decides from the outcomes of the attempts, in order, how the child is
/// isolated.
pub fn isolation(accepted: &[bool], strict: bool) -> (r: Isolation)
    ensures
        r == isolation_of(accepted@, strict),
{
    let mut i: usize = 0;
    while i < accepted.len()
        invariant
            i <= accepted@.len(),
            first_accepted(accepted@, 0) == first_accepted(accepted@, i as int),
        decreases accepted@.len() - i,
    {
        if accepted[i] {
            return Isolation::Isolated(i);
        }
        i += 1;
    }
    if strict {
        Isolation::Fatal
    } else {
        Isolation::Unisolated
    }
}

/// The resource limits to set on the child; none for a limit of 0.
#[derive(Debug, Clone, Copy, PartialEq, Eq)]
pub struct RlimitPlan {
    /// `RLIMIT_CPU` in seconds.
    pub cpu_secs: Option<u64>,
    /// `RLIMIT_AS` in bytes.
    pub address_space: Option<u64>,
    /// `RLIMIT_NPROC`.
    pub nproc: Option<u64>,
}

/// A number of megabytes in bytes, or the largest number where that does
/// not fit.
pub open spec fn megabytes(mb: u64) -> u64 {
    if mb * 0x10_0000 > u64::MAX {
        u64::MAX
    } else {
        (mb * 0x10_0000) as u64
    }
}

/// The resource limits of a specification: the processor time in whole
/// seconds, the address space in bytes, the number of processes.
pub open spec fn rlimits_of(spec: SandboxSpec) -> RlimitPlan {
    RlimitPlan {
        cpu_secs: if spec.cpu_ms / 1000 > 0 {
            Some(spec.cpu_ms / 1000)
        } else {
            None
        },
        address_space: if spec.memory_mb > 0 {
            Some(megabytes(spec.memory_mb))
        } else {
            None
        },
        nproc: if spec.pids > 0 {
            Some(spec.pids)
        } else {
            None
        },
    }
}

fn to_bytes(mb: u64) -> (r: u64)
    ensures
        r == megabytes(mb),
{
    if mb > u64::MAX / 0x10_0000 {
        u64::MAX
    } else {
        mb * 0x10_0000
    }
}

/// The resource limits to set on the child.
pub fn rlimit_plan(spec: &SandboxSpec) -> (r: RlimitPlan)
    ensures
        r == rlimits_of(*spec),
{
    let cpu: u64 = spec.cpu_ms / 1000;
    RlimitPlan {
        cpu_secs: if cpu > 0 {
            Some(cpu)
        } else {
            None
        },
        address_space: if spec.memory_mb > 0 {
            Some(to_bytes(spec.memory_mb))
        } else {
            None
        },
        nproc: if spec.pids > 0 {
            Some(spec.pids)
        } else {
            None
        },
    }
}

/// How to start the child.
#[derive(Debug, Clone)]
pub struct SpawnPlan {
    pub program: String,
    pub args: Vec<String>,
    pub working_dir: String,
    pub env: Vec<(String, String)>,
    pub stdin: String,
}

/// How to start the child of a plan: `bash -lc` with the command, in
/// `/tmp`, with the plan's environment and nothing else, and the plan's
/// input.
pub fn spawn_plan(plan: &ExecutionPlan) -> (s: SpawnPlan)
    ensures
        s.program@ == "bash"@,
        texts(s.args@) == seq!["-lc"@, plan.cmd@],
        s.working_dir@ == "/tmp"@,
        crate::policy::var_pairs(s.env@) == crate::policy::var_pairs(plan.env@),
        s.stdin@ == plan.stdin@,
{
    let mut args: Vec<String> = Vec::new();
    args.push("-lc".to_owned());
    args.push(plan.cmd.clone());
    assert(texts(args@) =~= seq!["-lc"@, plan.cmd@]);
    let mut env: Vec<(String, String)> = Vec::new();
    let mut i: usize = 0;
    assert(crate::policy::var_pairs(env@) =~= crate::policy::var_pairs(plan.env@).take(0));
    while i < plan.env.len()
        invariant
            i <= plan.env@.len(),
            crate::policy::var_pairs(env@) == crate::policy::var_pairs(plan.env@).take(i as int),
        decreases plan.env@.len() - i,
    {
        let ghost before = crate::policy::var_pairs(env@);
        let ghost all = crate::policy::var_pairs(plan.env@);
        let name = plan.env[i].0.clone();
        let value = plan.env[i].1.clone();
        assert((name@, value@) == all[i as int]);
        env.push((name, value));
        assert(crate::policy::var_pairs(env@) =~= before.push(all[i as int]));
        assert(all.take(i + 1) =~= all.take(i as int).push(all[i as int]));
        i += 1;
    }
    assert(crate::policy::var_pairs(plan.env@).take(plan.env@.len() as int)
        =~= crate::policy::var_pairs(plan.env@));
    SpawnPlan {
        program: "bash".to_owned(),
        args,
        working_dir: "/tmp".to_owned(),
        env,
        stdin: plan.stdin.clone(),
    }
}

/// The pause between two looks at the child, in milliseconds.
pub const POLL_MS: u64 = 25;

/// What the supervisor does next.
#[derive(Debug, Clone, Copy, PartialEq, Eq)]
pub enum Supervision {
    /// The child has exited: collect its output and its code.
    Collect,
    /// The deadline has passed: kill the child.
    Kill,
    /// Look again after this many milliseconds.
    Sleep(u64),
}

/// The deadline of a child that was started at `start_ms`: the wall-clock
/// cap later, or the largest time where that does not fit.
pub open spec fn deadline_of(start_ms: u64, wall_sec: u64) -> u64 {
    if start_ms + wall_sec * 1000 > u64::MAX {
        u64::MAX
    } else {
        (start_ms + wall_sec * 1000) as u64
    }
}

/// The deadline of a child that was started at `start_ms`.
pub fn deadline_ms(start_ms: u64, wall_sec: u64) -> (d: u64)
    ensures
        d == deadline_of(start_ms, wall_sec),
{
    if wall_sec > (u64::MAX - start_ms) / 1000 {
        u64::MAX
    } else {
        start_ms + wall_sec * 1000
    }
}

/// What the supervisor does when it finds the child exited or not at time
/// `now_ms`: an exited child is collected, a running one is killed from
/// the deadline on and left alone for one pause before it.
pub open spec fn supervision_of(exited: bool, now_ms: u64, deadline: u64) -> Supervision {
    if exited {
        Supervision::Collect
    } else if now_ms >= deadline {
        Supervision::Kill
    } else {
        Supervision::Sleep(POLL_MS)
    }
}

/// Decides what the supervisor does next.
pub fn supervise(exited: bool, now_ms: u64, deadline: u64) -> (s: Supervision)
    ensures
        s == supervision_of(exited, now_ms, deadline),
{
    if exited {
        Supervision::Collect
    } else if now_ms >= deadline {
        Supervision::Kill
    } else {
        Supervision::Sleep(POLL_MS)
    }
}

/// The outcome of a child that exited: its output, and its code, or 1
/// where it left none.
pub fn outcome_of_exit(code: Option<i32>, stdout: Vec<u8>, stderr: Vec<u8>) -> (r: SandboxOutcome)
    ensures
        r.exit_code == (match code {
            Some(c) => c,
            None => 1i32,
        }),
        r.stdout == stdout,
        r.stderr == stderr,
{
    SandboxOutcome {
        exit_code: match code {
            Some(c) => c,
            None => 1,
        },
        stdout,
        stderr,
    }
}

/// The outcome of a child that was killed at its deadline: exit code 20,
/// no output, and `timeout` on the error stream.
pub fn outcome_of_timeout() -> (r: SandboxOutcome)
    ensures
        r.exit_code == 20,
        r.stdout@.len() == 0,
        r.stderr@ == seq![0x74u8, 0x69u8, 0x6du8, 0x65u8, 0x6fu8, 0x75u8, 0x74u8],
{
    let mut stderr: Vec<u8> = Vec::new();
    stderr.push(0x74u8);
    stderr.push(0x69u8);
    stderr.push(0x6du8);
    stderr.push(0x65u8);
    stderr.push(0x6fu8);
    stderr.push(0x75u8);
    stderr.push(0x74u8);
    assert(stderr@ =~= seq![0x74u8, 0x69u8, 0x6du8, 0x65u8, 0x6fu8, 0x75u8, 0x74u8]);
    SandboxOutcome { exit_code: 20, stdout: Vec::new(), stderr }
}

/// How a supervised run ended, from what the supervisor last did and the
/// code that the child left.
pub fn run_end(last: Supervision, code: Option<i32>) -> (end: RunEnd)
    ensures
        end == (match last {
            Supervision::Kill => RunEnd::TimedOut,
            _ => match code {
                Some(c) => RunEnd::Exited(c),
                None => RunEnd::Killed,
            },
        }),
{
    match last {
        Supervision::Kill => RunEnd::TimedOut,
        _ => match code {
            Some(c) => RunEnd::Exited(c),
            None => RunEnd::Killed,
        },
    }
}

/// A child that never exits is killed at the first look from the
/// deadline on. Where the look before it came at `prev_ms`, and this one
/// no more than a pause and `slack` milliseconds later, the child has run
/// for at most the cap, a pause and the slack.
pub proof fn lemma_wall_is_enforced(
    start_ms: u64,
    wall_sec: u64,
    prev_ms: u64,
    now_ms: u64,
    slack: u64,
)
    requires
        start_ms + wall_sec * 1000 <= u64::MAX,
        start_ms <= prev_ms <= now_ms,
        supervision_of(false, prev_ms, deadline_of(start_ms, wall_sec)) is Sleep,
        now_ms <= prev_ms + POLL_MS + slack,
    ensures
        now_ms - start_ms <= wall_sec * 1000 + POLL_MS + slack,
        now_ms >= deadline_of(start_ms, wall_sec) ==> supervision_of(
            false,
            now_ms,
            deadline_of(start_ms, wall_sec),
        ) == Supervision::Kill,
{
}

/// With a cap of zero seconds a running child is killed at the first
/// look.
pub proof fn lemma_zero_cap_kills_at_once(start_ms: u64, now_ms: u64)
    requires
        start_ms <= now_ms,
    ensures
        supervision_of(false, now_ms, deadline_of(start_ms, 0)) == Supervision::Kill,
{
}

/// One step of putting the child behind a read-only root.
#[derive(Debug, Clone, Copy, PartialEq, Eq)]
pub enum StepKind {
    /// Leave the parent's mount namespace.
    UnshareMounts,
    /// Make every mount private, from `/` down.
    MakePrivate,
    /// Create the directory `target` and those above it.
    CreateDir,
    /// Mount a `tmpfs` at `target`.
    MountTmpfs,
    /// Mount the overlay at `target`.
    MountOverlay,
    /// Mount `proc` at `target`.
    MountProc,
    /// Bind `source` at `target`.
    Bind,
    /// Make `source` the root and put the old one at `target`; change the
    /// root to `source` where that fails.
    PivotRoot,
    /// Detach the old root at `target` and remove its directory.
    DetachOldRoot,
    /// Mount `/` again, read-only.
    RemountReadOnly,
}

/// A step with its paths and options. A step that is not required may
/// fail without ending the setup.
#[derive(Debug, Clone)]
pub struct OverlayStep {
    pub kind: StepKind,
    pub source: String,
    pub target: String,
    pub options: String,
    pub required: bool,
}

/// A step as plain values.
pub struct StepModel {
    pub kind: StepKind,
    pub source: Seq<char>,
    pub target: Seq<char>,
    pub options: Seq<char>,
    pub required: bool,
}

impl View for OverlayStep {
    type V = StepModel;

    open spec fn view(&self) -> StepModel {
        StepModel {
            kind: self.kind,
            source: self.source@,
            target: self.target@,
            options: self.options@,
            required: self.required,
        }
    }
}

/// The views of a list of steps.
pub open spec fn steps_view(v: Seq<OverlayStep>) -> Seq<StepModel> {
    v.map_values(|s: OverlayStep| s@)
}

/// The options of the overlay mount.
pub open spec fn overlay_options_of(lower: Seq<char>, scratch: Seq<char>) -> Seq<char> {
    "lowerdir="@ + lower + ",upperdir="@ + scratch + "/upper"@ + ",workdir="@ + scratch + "/work"@
}

/// The scratch directory of the process with this number.
pub open spec fn scratch_dir_of(pid: u32) -> Seq<char> {
    "/tmp/mr_ovl_"@ + decimal(pid as nat)
}

/// The scratch directory of the process with this number.
pub fn scratch_dir(pid: u32) -> (s: String)
    ensures
        s@ == scratch_dir_of(pid),
{
    let mut c: Vec<char> = Vec::new();
    push_str_chars(&mut c, "/tmp/mr_ovl_");
    push_decimal(&mut c, pid as u64);
    assert(c@ =~= scratch_dir_of(pid));
    from_chars(c.as_slice())
}

/// The options of the overlay mount.
pub fn overlay_options(lower: &str, scratch: &str) -> (s: String)
    ensures
        s@ == overlay_options_of(lower@, scratch@),
{
    let mut c: Vec<char> = Vec::new();
    push_str_chars(&mut c, "lowerdir=");
    push_str_chars(&mut c, lower);
    push_str_chars(&mut c, ",upperdir=");
    push_str_chars(&mut c, scratch);
    push_str_chars(&mut c, "/upper");
    push_str_chars(&mut c, ",workdir=");
    push_str_chars(&mut c, scratch);
    push_str_chars(&mut c, "/work");
    assert(c@ =~= overlay_options_of(lower@, scratch@));
    from_chars(c.as_slice())
}

/// A step as plain values.
pub open spec fn step_of(
    kind: StepKind,
    source: Seq<char>,
    target: Seq<char>,
    options: Seq<char>,
    required: bool,
) -> StepModel {
    StepModel { kind, source, target, options, required }
}

/// The steps that put the child behind a read-only root, in order: the
/// mounts are made private, the scratch directories created, a `tmpfs`
/// mounted for `/tmp`, the overlay mounted over the current root, `proc`
/// mounted inside it, the `tmpfs` bound at its `/tmp`, the root pivoted,
/// the old root detached, and `/` mounted again read-only.
pub open spec fn overlay_steps_of(scratch: Seq<char>, lower: Seq<char>) -> Seq<StepModel> {
    let root = scratch + "/root"@;
    let tmp = scratch + "/tmp"@;
    seq![
        step_of(StepKind::UnshareMounts, ""@, ""@, ""@, true),
        step_of(StepKind::MakePrivate, "none"@, "/"@, ""@, true),
        step_of(StepKind::CreateDir, ""@, scratch + "/upper"@, ""@, true),
        step_of(StepKind::CreateDir, ""@, scratch + "/work"@, ""@, true),
        step_of(StepKind::CreateDir, ""@, root, ""@, true),
        step_of(StepKind::CreateDir, ""@, tmp, ""@, true),
        step_of(StepKind::MountTmpfs, "tmpfs"@, tmp, "size=64m,mode=1777"@, true),
        step_of(StepKind::MountOverlay, "overlay"@, root, overlay_options_of(lower, scratch), true),
        step_of(StepKind::CreateDir, ""@, root + "/proc"@, ""@, false),
        step_of(StepKind::MountProc, "proc"@, root + "/proc"@, ""@, false),
        step_of(StepKind::CreateDir, ""@, root + "/tmp"@, ""@, true),
        step_of(StepKind::Bind, tmp, root + "/tmp"@, ""@, true),
        step_of(StepKind::CreateDir, ""@, root + "/.old_root"@, ""@, false),
        step_of(StepKind::PivotRoot, root, root + "/.old_root"@, ""@, true),
        step_of(StepKind::DetachOldRoot, ""@, "/.old_root"@, ""@, false),
        step_of(StepKind::RemountReadOnly, "none"@, "/"@, ""@, false),
    ]
}

fn step(kind: StepKind, source: &str, target: &str, options: &str, required: bool) -> (s:
    OverlayStep)
    ensures
        s@ == step_of(kind, source@, target@, options@, required),
{
    OverlayStep {
        kind,
        source: source.to_owned(),
        target: target.to_owned(),
        options: options.to_owned(),
        required,
    }
}

/// The steps that put the child behind a read-only root, where the
/// switch `MAGICRUNE_OVERLAY_RO` is on; none where it is off.
pub fn try_enable_overlay_ro(switch: Option<&str>, scratch: &str, lower: &str) -> (r: Option<
    Vec<OverlayStep>,
>)
    ensures
        match r {
            Some(steps) => switched_on(crate::endpoint::opt_text(switch)) && steps_view(steps@)
                == overlay_steps_of(scratch@, lower@),
            None => !switched_on(crate::endpoint::opt_text(switch)),
        },
{
    if !flag_on(switch) {
        return None;
    }
    let upper = joined(scratch, "/upper");
    let work = joined(scratch, "/work");
    let root = joined(scratch, "/root");
    let tmp = joined(scratch, "/tmp");
    let root_proc = joined(root.as_str(), "/proc");
    let root_tmp = joined(root.as_str(), "/tmp");
    let put_old = joined(root.as_str(), "/.old_root");
    let options = overlay_options(lower, scratch);
    let mut v: Vec<OverlayStep> = Vec::new();
    v.push(step(StepKind::UnshareMounts, "", "", "", true));
    v.push(step(StepKind::MakePrivate, "none", "/", "", true));
    v.push(step(StepKind::CreateDir, "", upper.as_str(), "", true));
    v.push(step(StepKind::CreateDir, "", work.as_str(), "", true));
    v.push(step(StepKind::CreateDir, "", root.as_str(), "", true));
    v.push(step(StepKind::CreateDir, "", tmp.as_str(), "", true));
    v.push(step(StepKind::MountTmpfs, "tmpfs", tmp.as_str(), "size=64m,mode=1777", true));
    v.push(step(StepKind::MountOverlay, "overlay", root.as_str(), options.as_str(), true));
    v.push(step(StepKind::CreateDir, "", root_proc.as_str(), "", false));
    v.push(step(StepKind::MountProc, "proc", root_proc.as_str(), "", false));
    v.push(step(StepKind::CreateDir, "", root_tmp.as_str(), "", true));
    v.push(step(StepKind::Bind, tmp.as_str(), root_tmp.as_str(), "", true));
    v.push(step(StepKind::CreateDir, "", put_old.as_str(), "", false));
    v.push(step(StepKind::PivotRoot, root.as_str(), put_old.as_str(), "", true));
    v.push(step(StepKind::DetachOldRoot, "", "/.old_root", "", false));
    v.push(step(StepKind::RemountReadOnly, "none", "/", "", false));
    assert(steps_view(v@) =~= overlay_steps_of(scratch@, lower@));
    Some(v)
}

/// What follows from a step that failed or succeeded.
#[derive(Debug, Clone, Copy, PartialEq, Eq)]
pub enum StepOutcome {
    /// Go on with the next step.
    Continue,
    /// Go on, and leave out the detaching of the old root.
    ContinueWithoutDetach,
    /// End the setup with an error; the child runs without the overlay.
    Abort,
}

/// What follows from a step. A step that succeeded is followed by the
/// next, and so is one that failed and was not required. The pivot falls
/// back to a change of root, after which the old root is not detached;
/// the failure of both, or of any other required step, ends the setup.
pub open spec fn step_outcome_of(
    kind: StepKind,
    required: bool,
    succeeded: bool,
    fallback_succeeded: bool,
) -> StepOutcome {
    if succeeded || !required {
        StepOutcome::Continue
    } else if kind == StepKind::PivotRoot && fallback_succeeded {
        StepOutcome::ContinueWithoutDetach
    } else {
        StepOutcome::Abort
    }
}

/// Decides what follows from a step.
pub fn after_step(step: &OverlayStep, succeeded: bool, fallback_succeeded: bool) -> (r:
    StepOutcome)
    ensures
        r == step_outcome_of(step.kind, step.required, succeeded, fallback_succeeded),
{
    if succeeded || !step.required {
        return StepOutcome::Continue;
    }
    match step.kind {
        StepKind::PivotRoot => if fallback_succeeded {
            StepOutcome::ContinueWithoutDetach
        } else {
            StepOutcome::Abort
        },
        _ => StepOutcome::Abort,
    }
}

/// Whether the change of root is tried in place of a step: only for a
/// pivot that failed.
pub fn falls_back(step: &OverlayStep, succeeded: bool) -> (b: bool)
    ensures
        b == (!succeeded && step.kind == StepKind::PivotRoot),
{
    match step.kind {
        StepKind::PivotRoot => !succeeded,
        _ => false,
    }
}

/// Whether a step is taken: every step but the detaching of the old
/// root, which is taken only after the root was pivoted.
pub fn step_applies(step: &OverlayStep, pivoted: bool) -> (b: bool)
    ensures
        b == !(step.kind == StepKind::DetachOldRoot && !pivoted),
{
    match step.kind {
        StepKind::DetachOldRoot => pivoted,
        _ => true,
    }
}

/// A system call that the filter allows, and the one to allow in its
/// place where the system does not know the first.
#[derive(Debug, Clone)]
pub struct SyscallRule {
    pub name: String,
    pub fallback: Option<String>,
}

/// A rule as plain values; an empty fallback stands for none.
pub open spec fn rule_of(name: Seq<char>, fallback: Seq<char>) -> (Seq<char>, Option<Seq<char>>) {
    (
        name,
        if fallback.len() == 0 {
            None
        } else {
            Some(fallback)
        },
    )
}

/// The views of a list of rules.
pub open spec fn rules_view(v: Seq<SyscallRule>) -> Seq<(Seq<char>, Option<Seq<char>>)> {
    v.map_values(|r: SyscallRule| (r.name@, crate::endpoint::opt_string(r.fallback)))
}

/// The system calls that a shell and its child cannot do without.
pub open spec fn minimal_rules() -> Seq<(Seq<char>, Option<Seq<char>>)> {
    seq![
        rule_of("read"@, ""@),
        rule_of("write"@, ""@),
        rule_of("exit"@, ""@),
        rule_of("exit_group"@, ""@),
        rule_of("futex"@, "futex_time64"@),
        rule_of("clock_gettime"@, "clock_gettime64"@),
        rule_of("clock_nanosleep"@, "clock_nanosleep_time64"@),
        rule_of("rt_sigaction"@, ""@),
        rule_of("rt_sigprocmask"@, ""@),
        rule_of("ppoll"@, "poll"@),
        rule_of("openat"@, ""@),
        rule_of("statx"@, ""@),
        rule_of("close"@, ""@),
        rule_of("mmap"@, ""@),
        rule_of("munmap"@, ""@),
        rule_of("brk"@, ""@),
        rule_of("fstat"@, "newfstatat"@),
        rule_of("lseek"@, ""@),
        rule_of("fcntl"@, ""@),
        rule_of("readlinkat"@, "readlink"@),
    ]
}

/// The system calls that the loosened filter allows on top.
pub open spec fn loosened_rules() -> Seq<(Seq<char>, Option<Seq<char>>)> {
    seq![
        rule_of("getrandom"@, ""@),
        rule_of("prlimit64"@, ""@),
        rule_of("setrlimit"@, ""@),
        rule_of("clone3"@, ""@),
    ]
}

/// The system calls that the filter allows; every other call is denied.
pub open spec fn allowed_syscalls(loosen: bool) -> Seq<(Seq<char>, Option<Seq<char>>)> {
    if loosen {
        minimal_rules() + loosened_rules()
    } else {
        minimal_rules()
    }
}

fn rule(name: &str, fallback: &str) -> (r: SyscallRule)
    ensures
        (r.name@, crate::endpoint::opt_string(r.fallback)) == rule_of(name@, fallback@),
{
    SyscallRule {
        name: name.to_owned(),
        fallback: if fallback.is_empty() {
            None
        } else {
            Some(fallback.to_owned())
        },
    }
}

impl SyscallRule {
    /// The name under which the rule is added to the filter: its own
    /// where the system knows it, else its fallback where there is one
    /// that the system knows, else none.
    pub fn pick(&self, name_known: bool, fallback_known: bool) -> (r: Option<&String>)
        ensures
            r == (if name_known {
                Some(&self.name)
            } else if fallback_known {
                match self.fallback {
                    Some(f) => Some(&f),
                    None => None,
                }
            } else {
                None
            }),
    {
        if name_known {
            Some(&self.name)
        } else if fallback_known {
            match &self.fallback {
                Some(f) => Some(f),
                None => None,
            }
        } else {
            None
        }
    }
}

/// The error number that a denied system call returns.
pub const SECCOMP_DENY_ERRNO: i32 = 1;

/// The system calls that the filter allows, which denies every other
/// call. With `loosen` four more are allowed.
pub fn seccomp_minimal_allow(loosen: bool) -> (rules: Vec<SyscallRule>)
    ensures
        rules_view(rules@) == allowed_syscalls(loosen),
{
    let mut v: Vec<SyscallRule> = Vec::new();
    v.push(rule("read", ""));
    v.push(rule("write", ""));
    v.push(rule("exit", ""));
    v.push(rule("exit_group", ""));
    v.push(rule("futex", "futex_time64"));
    v.push(rule("clock_gettime", "clock_gettime64"));
    v.push(rule("clock_nanosleep", "clock_nanosleep_time64"));
    v.push(rule("rt_sigaction", ""));
    v.push(rule("rt_sigprocmask", ""));
    v.push(rule("ppoll", "poll"));
    v.push(rule("openat", ""));
    v.push(rule("statx", ""));
    v.push(rule("close", ""));
    v.push(rule("mmap", ""));
    v.push(rule("munmap", ""));
    v.push(rule("brk", ""));
    v.push(rule("fstat", "newfstatat"));
    v.push(rule("lseek", ""));
    v.push(rule("fcntl", ""));
    v.push(rule("readlinkat", "readlink"));
    assert(rules_view(v@) =~= minimal_rules());
    if loosen {
        v.push(rule("getrandom", ""));
        v.push(rule("prlimit64", ""));
        v.push(rule("setrlimit", ""));
        v.push(rule("clone3", ""));
        assert(rules_view(v@) =~= minimal_rules() + loosened_rules());
    }
    v
}

/// A file of a control group and what to write to it.
#[derive(Debug, Clone)]
pub struct CgroupWrite {
    pub file: String,
    pub content: String,
}

/// What to do to put the process under a control group.
#[derive(Debug, Clone)]
pub struct CgroupPlan {
    /// The directory of the group, to be created.
    pub dir: String,
    /// The files to write in it, in order.
    pub writes: Vec<CgroupWrite>,
}

/// Where the groups are made where nothing else is asked for.
pub open spec fn default_cgroup_parent() -> Seq<char> {
    "/sys/fs/cgroup"@
}

/// The directory of the group of the process with this number.
pub open spec fn cgroup_dir_of(parent: Option<Seq<char>>, pid: u32) -> Seq<char> {
    (match parent {
        Some(p) => p,
        None => default_cgroup_parent(),
    }) + "/magicrune_"@ + decimal(pid as nat)
}

/// The files of a group and their contents: the memory in bytes, the
/// number of processes, half a processor where processor time is capped,
/// each only for a positive cap, and last the process that joins.
pub open spec fn cgroup_writes_of(cpu_ms: u64, mem_mb: u64, pids: u64, pid: u32) -> Seq<
    (Seq<char>, Seq<char>),
> {
    let mem: Seq<(Seq<char>, Seq<char>)> = if mem_mb > 0 {
        seq![("memory.max"@, decimal(megabytes(mem_mb) as nat))]
    } else {
        Seq::empty()
    };
    let procs: Seq<(Seq<char>, Seq<char>)> = if pids > 0 {
        seq![("pids.max"@, decimal(pids as nat))]
    } else {
        Seq::empty()
    };
    let cpu: Seq<(Seq<char>, Seq<char>)> = if cpu_ms > 0 {
        seq![("cpu.max"@, "50000 100000"@)]
    } else {
        Seq::empty()
    };
    mem + procs + cpu + seq![("cgroup.procs"@, decimal(pid as nat))]
}

/// The views of a list of writes.
pub open spec fn writes_view(v: Seq<CgroupWrite>) -> Seq<(Seq<char>, Seq<char>)> {
    v.map_values(|w: CgroupWrite| (w.file@, w.content@))
}

fn number_text(n: u64) -> (s: String)
    ensures
        s@ == decimal(n as nat),
{
    let c = crate::text::decimal_chars(n);
    from_chars(c.as_slice())
}

/// What to do to put the process `pid` under a control group with these
/// caps, on Linux and where the switch `MAGICRUNE_CGROUPS` is on; nothing
/// on any other system and where the switch is off. The group is made
/// under `parent`, or under `/sys/fs/cgroup`.
pub fn try_enable_cgroups(
    cpu_ms: u64,
    mem_mb: u64,
    pids: u64,
    linux: bool,
    switch: Option<&str>,
    parent: Option<&str>,
    pid: u32,
) -> (r: Option<CgroupPlan>)
    ensures
        r is Some == (linux && switched_on(crate::endpoint::opt_text(switch))),
        match r {
            Some(plan) => plan.dir@ == cgroup_dir_of(crate::endpoint::opt_text(parent), pid)
                && writes_view(plan.writes@) == cgroup_writes_of(cpu_ms, mem_mb, pids, pid),
            None => true,
        },
{
    if !linux || !flag_on(switch) {
        return None;
    }
    let mut d: Vec<char> = Vec::new();
    match parent {
        Some(p) => {
            push_str_chars(&mut d, p);
        },
        None => {
            push_str_chars(&mut d, "/sys/fs/cgroup");
        },
    }
    push_str_chars(&mut d, "/magicrune_");
    push_decimal(&mut d, pid as u64);
    assert(d@ =~= cgroup_dir_of(crate::endpoint::opt_text(parent), pid));
    let mut w: Vec<CgroupWrite> = Vec::new();
    assert(writes_view(w@) =~= Seq::<(Seq<char>, Seq<char>)>::empty());
    if mem_mb > 0 {
        let ghost before = writes_view(w@);
        let content = number_text(to_bytes(mem_mb));
        w.push(CgroupWrite { file: "memory.max".to_owned(), content });
        assert(writes_view(w@) =~= before.push(("memory.max"@, decimal(megabytes(mem_mb) as nat))));
    }
    if pids > 0 {
        let ghost before = writes_view(w@);
        let content = number_text(pids);
        w.push(CgroupWrite { file: "pids.max".to_owned(), content });
        assert(writes_view(w@) =~= before.push(("pids.max"@, decimal(pids as nat))));
    }
    if cpu_ms > 0 {
        let ghost before = writes_view(w@);
        w.push(CgroupWrite { file: "cpu.max".to_owned(), content: "50000 100000".to_owned() });
        assert(writes_view(w@) =~= before.push(("cpu.max"@, "50000 100000"@)));
    }
    let ghost before = writes_view(w@);
    let content = number_text(pid as u64);
    w.push(CgroupWrite { file: "cgroup.procs".to_owned(), content });
    assert(writes_view(w@) =~= before.push(("cgroup.procs"@, decimal(pid as nat))));
    assert(writes_view(w@) =~= cgroup_writes_of(cpu_ms, mem_mb, pids, pid));
    Some(CgroupPlan { dir: from_chars(d.as_slice()), writes: w })
}

/// The units of fuel that one millisecond of processor time buys.
pub const FUEL_PER_CPU_MS: u64 = 2000;

/// The exit code of a module that trapped.
pub const WASM_TRAP_EXIT: i32 = 4;

/// How a module is metered: its fuel, and the number of seconds after
/// which it is interrupted.
#[derive(Debug, Clone, Copy, PartialEq, Eq)]
pub struct WasmBudget {
    pub fuel: u64,
    pub epoch_deadline_sec: u64,
}

/// The budget of a module under a specification: fuel in proportion to
/// the processor time, or the largest amount where that does not fit,
/// and the wall-clock cap.
pub open spec fn wasm_budget_of(spec: SandboxSpec) -> WasmBudget {
    WasmBudget {
        fuel: if spec.cpu_ms * FUEL_PER_CPU_MS > u64::MAX {
            u64::MAX
        } else {
            (spec.cpu_ms * FUEL_PER_CPU_MS) as u64
        },
        epoch_deadline_sec: spec.wall_sec,
    }
}

/// The budget of a module under a specification.
pub fn wasm_budget(spec: &SandboxSpec) -> (b: WasmBudget)
    ensures
        b == wasm_budget_of(*spec),
{
    WasmBudget {
        fuel: if spec.cpu_ms > u64::MAX / FUEL_PER_CPU_MS {
            u64::MAX
        } else {
            spec.cpu_ms * FUEL_PER_CPU_MS
        },
        epoch_deadline_sec: spec.wall_sec,
    }
}

/// How the call of a module's `_start` went.
#[derive(Debug, Clone, Copy, PartialEq, Eq)]
pub enum WasmEnd {
    /// The module exports no `_start`, or could not be made ready.
    NotStarted,
    /// `_start` returned.
    Returned,
    /// `_start` trapped.
    Trapped,
}

/// The outcome of a module: exit code 4 where it trapped and 0 in every
/// other case, with no captured output, since it writes to the streams
/// of the host.
pub fn wasm_outcome(end: WasmEnd) -> (r: SandboxOutcome)
    ensures
        r.exit_code == (if end == WasmEnd::Trapped {
            4i32
        } else {
            0i32
        }),
        r.stdout@.len() == 0,
        r.stderr@.len() == 0,
{
    let mut r = SandboxOutcome::empty();
    match end {
        WasmEnd::Trapped => {
            r.exit_code = WASM_TRAP_EXIT;
        },
        _ => {},
    }
    r
}

/// The states of a request on its way to a result.
#[derive(Debug, Clone, Copy, PartialEq, Eq)]
pub enum ExecState {
    Created,
    PolicyChecked,
    FilesMaterialized,
    Running,
    Exited,
    TimedOut,
    Killed,
    Reported,
}

/// What happens to a request.
#[derive(Debug, Clone, Copy, PartialEq, Eq)]
pub enum ExecEvent {
    /// The policy has been checked and the risk graded.
    Checked,
    /// The check refused the request: nothing is run.
    Refused,
    /// The files have been written.
    FilesWritten,
    /// The child has been started.
    Spawned,
    /// The child exited.
    ChildExited,
    /// The deadline passed and the child was killed.
    DeadlinePassed,
    /// A signal ended the child.
    ChildKilled,
    /// The result has been handed over.
    ResultReported,
}

/// The state that an event leads to, where the event may happen in the
/// state at all.
pub open spec fn next_state(state: ExecState, event: ExecEvent) -> Option<ExecState> {
    match (state, event) {
        (ExecState::Created, ExecEvent::Checked) => Some(ExecState::PolicyChecked),
        (ExecState::PolicyChecked, ExecEvent::Refused) => Some(ExecState::Reported),
        (ExecState::PolicyChecked, ExecEvent::FilesWritten) => Some(ExecState::FilesMaterialized),
        (ExecState::FilesMaterialized, ExecEvent::Spawned) => Some(ExecState::Running),
        (ExecState::Running, ExecEvent::ChildExited) => Some(ExecState::Exited),
        (ExecState::Running, ExecEvent::DeadlinePassed) => Some(ExecState::TimedOut),
        (ExecState::Running, ExecEvent::ChildKilled) => Some(ExecState::Killed),
        (ExecState::Exited, ExecEvent::ResultReported) => Some(ExecState::Reported),
        (ExecState::TimedOut, ExecEvent::ResultReported) => Some(ExecState::Reported),
        (ExecState::Killed, ExecEvent::ResultReported) => Some(ExecState::Reported),
        _ => None,
    }
}

/// The state that an event leads to.
pub fn transition(state: ExecState, event: ExecEvent) -> (r: Option<ExecState>)
    ensures
        r == next_state(state, event),
{
    match (state, event) {
        (ExecState::Created, ExecEvent::Checked) => Some(ExecState::PolicyChecked),
        (ExecState::PolicyChecked, ExecEvent::Refused) => Some(ExecState::Reported),
        (ExecState::PolicyChecked, ExecEvent::FilesWritten) => Some(ExecState::FilesMaterialized),
        (ExecState::FilesMaterialized, ExecEvent::Spawned) => Some(ExecState::Running),
        (ExecState::Running, ExecEvent::ChildExited) => Some(ExecState::Exited),
        (ExecState::Running, ExecEvent::DeadlinePassed) => Some(ExecState::TimedOut),
        (ExecState::Running, ExecEvent::ChildKilled) => Some(ExecState::Killed),
        (ExecState::Exited, ExecEvent::ResultReported) => Some(ExecState::Reported),
        (ExecState::TimedOut, ExecEvent::ResultReported) => Some(ExecState::Reported),
        (ExecState::Killed, ExecEvent::ResultReported) => Some(ExecState::Reported),
        _ => None,
    }
}

/// The number of events that may still happen to a request in a state, at
/// most.
pub open spec fn steps_left(state: ExecState) -> nat {
    match state {
        ExecState::Created => 5,
        ExecState::PolicyChecked => 4,
        ExecState::FilesMaterialized => 3,
        ExecState::Running => 2,
        ExecState::Exited => 1,
        ExecState::TimedOut => 1,
        ExecState::Killed => 1,
        ExecState::Reported => 0,
    }
}

/// Nothing happens to a reported request, every event brings a request
/// closer to its report, and no file is written and no child started
/// before the policy has been checked.
pub proof fn lemma_state_machine(state: ExecState, event: ExecEvent)
    ensures
        next_state(ExecState::Reported, event) is None,
        next_state(state, event) matches Some(next) ==> steps_left(next) < steps_left(state),
        next_state(state, ExecEvent::FilesWritten) is Some ==> state == ExecState::PolicyChecked,
        next_state(state, ExecEvent::Spawned) is Some ==> state == ExecState::FilesMaterialized,
{
}

} // verus!
