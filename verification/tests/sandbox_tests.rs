use magicrune::policy::evaluate;
use magicrune::runner::RunEnd;
use magicrune::sandbox::{
    after_step, deadline_ms, detect_sandbox, falls_back, flag_on, isolation, launch_for, namespace_attempt,
    outcome_of_exit, outcome_of_timeout, overlay_options, rlimit_plan, run_end, scratch_dir,
    seccomp_minimal_allow, spawn_plan, step_applies, supervise, transition, try_enable_cgroups,
    try_enable_overlay_ro, wasm_budget, wasm_outcome, ExecEvent, ExecState, Isolation, Launch,
    SandboxKind, SandboxOutcome, SandboxSpec, StepKind, StepOutcome, Supervision, WasmEnd,
};
use magicrune::schema::{PolicyDoc, SpellRequest};

#[test]
fn test_sandbox_api_contract() {
    let kind: SandboxKind = detect_sandbox(None, true);
    assert!(matches!(kind, SandboxKind::Wasi | SandboxKind::Linux));

    let spec = SandboxSpec {
        wall_sec: 10,
        cpu_ms: 5000,
        memory_mb: 128,
        pids: 100,
    };

    assert_eq!(spec.wall_sec, 10);
    assert_eq!(spec.cpu_ms, 5000);
    assert_eq!(spec.memory_mb, 128);
    assert_eq!(spec.pids, 100);
}

#[test]
fn default_is_wasi_on_non_linux_or_when_feature_disabled() {
    assert_eq!(detect_sandbox(None, false), SandboxKind::Wasi);
}

#[test]
fn linux_native_is_selected_when_enabled_on_linux() {
    assert_eq!(detect_sandbox(None, true), SandboxKind::Linux);
}

#[test]
fn the_environment_can_force_wasi() {
    assert_eq!(detect_sandbox(Some("1"), true), SandboxKind::Wasi);
    assert_eq!(detect_sandbox(Some("0"), true), SandboxKind::Linux);
    assert_eq!(detect_sandbox(Some("true"), true), SandboxKind::Linux);
    assert_eq!(detect_sandbox(Some(""), true), SandboxKind::Linux);
    assert_eq!(detect_sandbox(Some("11"), true), SandboxKind::Linux);
    assert!(flag_on(Some("1")));
    assert!(!flag_on(Some(" 1")));
    assert!(!flag_on(None));
}

#[test]
fn empty_outcome() {
    let o = SandboxOutcome::empty();
    assert_eq!(o.exit_code, 0);
    assert!(o.stdout.is_empty());
    assert!(o.stderr.is_empty());
}

#[test]
fn namespace_sets_get_weaker() {
    let a = namespace_attempt(0);
    assert!(a.user && a.pid && a.net && a.mount && a.uts && a.ipc);
    let b = namespace_attempt(1);
    assert!(!b.user && b.pid && b.net && b.mount && b.uts && b.ipc);
    let c = namespace_attempt(2);
    assert!(!c.user && c.pid && !c.net && c.mount && c.uts && c.ipc);
    assert_eq!(isolation(&[true, true, true], false), Isolation::Isolated(0));
    assert_eq!(isolation(&[false, true, false], false), Isolation::Isolated(1));
    assert_eq!(isolation(&[false, false, true], true), Isolation::Isolated(2));
    assert_eq!(isolation(&[false, false, false], false), Isolation::Unisolated);
    assert_eq!(isolation(&[false, false, false], true), Isolation::Fatal);
    assert_eq!(isolation(&[], false), Isolation::Unisolated);
}

#[test]
fn resource_limits() {
    let p = rlimit_plan(&SandboxSpec { wall_sec: 2, cpu_ms: 5000, memory_mb: 512, pids: 256 });
    assert_eq!(p.cpu_secs, Some(5));
    assert_eq!(p.address_space, Some(536870912));
    assert_eq!(p.nproc, Some(256));
    let p = rlimit_plan(&SandboxSpec { wall_sec: 2, cpu_ms: 999, memory_mb: 0, pids: 0 });
    assert_eq!(p.cpu_secs, None);
    assert_eq!(p.address_space, None);
    assert_eq!(p.nproc, None);
    let p = rlimit_plan(&SandboxSpec { wall_sec: 2, cpu_ms: 1999, memory_mb: u64::MAX, pids: 1 });
    assert_eq!(p.cpu_secs, Some(1));
    assert_eq!(p.address_space, Some(u64::MAX));
    assert_eq!(p.nproc, Some(1));
}

#[test]
fn the_child_is_a_shell_in_tmp() {
    let req = SpellRequest {
        cmd: Some("echo hi".to_string()),
        stdin: Some("in".to_string()),
        ..Default::default()
    };
    let plan = evaluate(&req, &PolicyDoc::default()).unwrap();
    let s = spawn_plan(&plan);
    assert_eq!(s.program, "bash");
    assert_eq!(s.args, vec!["-lc".to_string(), "echo hi".to_string()]);
    assert_eq!(s.working_dir, "/tmp");
    assert_eq!(s.stdin, "in");
    assert_eq!(
        s.env,
        vec![
            ("HOME".to_string(), "/tmp".to_string()),
            ("TMPDIR".to_string(), "/tmp".to_string())
        ]
    );
}

#[test]
fn scenario_wall_timeout() {
    let start = 1_000_000u64;
    let deadline = deadline_ms(start, 2);
    assert_eq!(deadline, 1_002_000);
    let mut now = start;
    let mut last = Supervision::Sleep(0);
    let mut looks = 0;
    loop {
        last = supervise(false, now, deadline);
        looks += 1;
        match last {
            Supervision::Sleep(ms) => {
                assert_eq!(ms, 25);
                now += ms;
            }
            _ => break,
        }
    }
    assert_eq!(last, Supervision::Kill);
    assert_eq!(looks, 81);
    let duration = now - start;
    assert!((2000..=3000).contains(&duration));
    assert_eq!(duration, 2000);
    assert!(matches!(run_end(last, None), RunEnd::TimedOut));
    let o = outcome_of_timeout();
    assert_eq!(o.exit_code, 20);
    assert!(o.stdout.is_empty());
    assert_eq!(o.stderr, b"timeout".to_vec());
}

#[test]
fn a_cap_of_zero_kills_at_the_first_look() {
    assert_eq!(supervise(false, 500, deadline_ms(500, 0)), Supervision::Kill);
    // an exited child is collected even after the deadline
    assert_eq!(supervise(true, 900, deadline_ms(500, 0)), Supervision::Collect);
    assert_eq!(deadline_ms(u64::MAX - 5, 1), u64::MAX);
    assert_eq!(deadline_ms(10, u64::MAX), u64::MAX);
}

#[test]
fn outcomes_of_an_exit() {
    let o = outcome_of_exit(Some(3), b"out".to_vec(), b"err".to_vec());
    assert_eq!(o.exit_code, 3);
    assert_eq!(o.stdout, b"out".to_vec());
    assert_eq!(o.stderr, b"err".to_vec());
    assert_eq!(outcome_of_exit(None, vec![], vec![]).exit_code, 1);
    assert!(matches!(run_end(Supervision::Collect, Some(3)), RunEnd::Exited(3)));
    assert!(matches!(run_end(Supervision::Collect, None), RunEnd::Killed));
    assert!(matches!(run_end(Supervision::Kill, Some(0)), RunEnd::TimedOut));
}

#[test]
fn overlay_steps_in_order() {
    assert!(try_enable_overlay_ro(None, "/tmp/s", "/").is_none());
    assert!(try_enable_overlay_ro(Some("0"), "/tmp/s", "/").is_none());
    let steps = try_enable_overlay_ro(Some("1"), "/tmp/mr_ovl_7", "/work").unwrap();
    let kinds: Vec<StepKind> = steps.iter().map(|s| s.kind).collect();
    assert_eq!(
        kinds,
        vec![
            StepKind::UnshareMounts,
            StepKind::MakePrivate,
            StepKind::CreateDir,
            StepKind::CreateDir,
            StepKind::CreateDir,
            StepKind::CreateDir,
            StepKind::MountTmpfs,
            StepKind::MountOverlay,
            StepKind::CreateDir,
            StepKind::MountProc,
            StepKind::CreateDir,
            StepKind::Bind,
            StepKind::CreateDir,
            StepKind::PivotRoot,
            StepKind::DetachOldRoot,
            StepKind::RemountReadOnly,
        ]
    );
    let targets: Vec<&str> = steps.iter().map(|s| s.target.as_str()).collect();
    assert_eq!(
        targets,
        vec![
            "",
            "/",
            "/tmp/mr_ovl_7/upper",
            "/tmp/mr_ovl_7/work",
            "/tmp/mr_ovl_7/root",
            "/tmp/mr_ovl_7/tmp",
            "/tmp/mr_ovl_7/tmp",
            "/tmp/mr_ovl_7/root",
            "/tmp/mr_ovl_7/root/proc",
            "/tmp/mr_ovl_7/root/proc",
            "/tmp/mr_ovl_7/root/tmp",
            "/tmp/mr_ovl_7/root/tmp",
            "/tmp/mr_ovl_7/root/.old_root",
            "/tmp/mr_ovl_7/root/.old_root",
            "/.old_root",
            "/",
        ]
    );
    assert_eq!(steps[6].options, "size=64m,mode=1777");
    assert_eq!(
        steps[7].options,
        "lowerdir=/work,upperdir=/tmp/mr_ovl_7/upper,workdir=/tmp/mr_ovl_7/work"
    );
    assert_eq!(steps[11].source, "/tmp/mr_ovl_7/tmp");
    assert_eq!(steps[13].source, "/tmp/mr_ovl_7/root");
    let required: Vec<bool> = steps.iter().map(|s| s.required).collect();
    assert_eq!(
        required,
        vec![
            true, true, true, true, true, true, true, true, false, false, true, true, false, true,
            false, false
        ]
    );
    assert_eq!(scratch_dir(4711), "/tmp/mr_ovl_4711");
    assert_eq!(overlay_options("/", "/s"), "lowerdir=/,upperdir=/s/upper,workdir=/s/work");
}

#[test]
fn what_follows_a_step() {
    let steps = try_enable_overlay_ro(Some("1"), "/s", "/").unwrap();
    assert_eq!(after_step(&steps[0], true, false), StepOutcome::Continue);
    assert_eq!(after_step(&steps[0], false, false), StepOutcome::Abort);
    assert_eq!(after_step(&steps[0], false, true), StepOutcome::Abort);
    assert_eq!(after_step(&steps[9], false, false), StepOutcome::Continue);
    assert_eq!(after_step(&steps[13], true, false), StepOutcome::Continue);
    assert_eq!(after_step(&steps[13], false, true), StepOutcome::ContinueWithoutDetach);
    assert_eq!(after_step(&steps[13], false, false), StepOutcome::Abort);
}

#[test]
fn seccomp_allow_lists() {
    let minimal = seccomp_minimal_allow(false);
    let names: Vec<&str> = minimal.iter().map(|r| r.name.as_str()).collect();
    assert_eq!(
        names,
        vec![
            "read", "write", "exit", "exit_group", "futex", "clock_gettime", "clock_nanosleep",
            "rt_sigaction", "rt_sigprocmask", "ppoll", "openat", "statx", "close", "mmap",
            "munmap", "brk", "fstat", "lseek", "fcntl", "readlinkat",
        ]
    );
    assert_eq!(minimal[4].fallback.as_deref(), Some("futex_time64"));
    assert_eq!(minimal[9].fallback.as_deref(), Some("poll"));
    assert_eq!(minimal[16].fallback.as_deref(), Some("newfstatat"));
    assert_eq!(minimal[0].fallback, None);
    let loosened = seccomp_minimal_allow(true);
    assert_eq!(loosened.len(), 24);
    let extra: Vec<&str> = loosened[20..].iter().map(|r| r.name.as_str()).collect();
    assert_eq!(extra, vec!["getrandom", "prlimit64", "setrlimit", "clone3"]);
    assert!(!names.contains(&"getrandom"));
}

#[test]
fn cgroups_opt_in_smoke() {
    assert!(try_enable_cgroups(5000, 128, 64, true, None, None, 1).is_none());
    assert!(try_enable_cgroups(5000, 128, 64, true, Some("0"), None, 1).is_none());
    assert!(try_enable_cgroups(5000, 128, 64, false, Some("1"), None, 1).is_none());
    let plan = try_enable_cgroups(5000, 128, 64, true, Some("1"), None, 4711).unwrap();
    assert_eq!(plan.dir, "/sys/fs/cgroup/magicrune_4711");
    let writes: Vec<(&str, &str)> =
        plan.writes.iter().map(|w| (w.file.as_str(), w.content.as_str())).collect();
    assert_eq!(
        writes,
        vec![
            ("memory.max", "134217728"),
            ("pids.max", "64"),
            ("cpu.max", "50000 100000"),
            ("cgroup.procs", "4711"),
        ]
    );
    let plan = try_enable_cgroups(0, 0, 0, true, Some("1"), Some("/cg"), 9).unwrap();
    assert_eq!(plan.dir, "/cg/magicrune_9");
    let writes: Vec<(&str, &str)> =
        plan.writes.iter().map(|w| (w.file.as_str(), w.content.as_str())).collect();
    assert_eq!(writes, vec![("cgroup.procs", "9")]);
}

#[test]
fn modules_are_metered() {
    let b = wasm_budget(&SandboxSpec { wall_sec: 2, cpu_ms: 5000, memory_mb: 1, pids: 1 });
    assert_eq!(b.fuel, 10_000_000);
    assert_eq!(b.epoch_deadline_sec, 2);
    let b = wasm_budget(&SandboxSpec { wall_sec: 0, cpu_ms: u64::MAX, memory_mb: 1, pids: 1 });
    assert_eq!(b.fuel, u64::MAX);
    assert_eq!(wasm_outcome(WasmEnd::Trapped).exit_code, 4);
    assert_eq!(wasm_outcome(WasmEnd::Returned).exit_code, 0);
    assert_eq!(wasm_outcome(WasmEnd::NotStarted).exit_code, 0);
}

#[test]
fn states_of_a_request() {
    let mut s = ExecState::Created;
    for e in [ExecEvent::Checked, ExecEvent::FilesWritten, ExecEvent::Spawned, ExecEvent::ChildExited, ExecEvent::ResultReported] {
        s = transition(s, e).unwrap();
    }
    assert_eq!(s, ExecState::Reported);
    let s = transition(ExecState::PolicyChecked, ExecEvent::Refused).unwrap();
    assert_eq!(s, ExecState::Reported);
    assert_eq!(transition(ExecState::Running, ExecEvent::DeadlinePassed), Some(ExecState::TimedOut));
    assert_eq!(transition(ExecState::Running, ExecEvent::ChildKilled), Some(ExecState::Killed));
    assert_eq!(transition(ExecState::TimedOut, ExecEvent::ResultReported), Some(ExecState::Reported));
    assert_eq!(transition(ExecState::Killed, ExecEvent::ResultReported), Some(ExecState::Reported));
    assert_eq!(transition(ExecState::Created, ExecEvent::Spawned), None);
    assert_eq!(transition(ExecState::Created, ExecEvent::FilesWritten), None);
    assert_eq!(transition(ExecState::Reported, ExecEvent::ResultReported), None);
    assert_eq!(transition(ExecState::Exited, ExecEvent::ChildExited), None);
}

#[test]
fn whether_a_child_is_started() {
    assert_eq!(launch_for(None, "echo hi", None, true), Launch::Native);
    assert_eq!(launch_for(Some("1"), "echo hi", None, true), Launch::Skip);
    assert_eq!(launch_for(Some("0"), "echo hi", None, true), Launch::Native);
    assert_eq!(launch_for(None, "  \t", None, true), Launch::Skip);
    assert_eq!(launch_for(None, "", None, true), Launch::Skip);
    assert_eq!(launch_for(None, "echo hi", Some("1"), true), Launch::Skip);
    assert_eq!(launch_for(None, "echo hi", None, false), Launch::Skip);
}

#[test]
fn steps_and_rules_that_depend_on_the_system() {
    let steps = try_enable_overlay_ro(Some("1"), "/s", "/").unwrap();
    assert!(step_applies(&steps[0], false));
    assert!(step_applies(&steps[14], true));
    assert!(!step_applies(&steps[14], false));
    assert!(step_applies(&steps[15], false));
    assert!(falls_back(&steps[13], false));
    assert!(!falls_back(&steps[13], true));
    assert!(!falls_back(&steps[12], false));
    assert!(!falls_back(&steps[0], false));
    let rules = seccomp_minimal_allow(false);
    assert_eq!(rules[4].pick(true, true).map(|s| s.as_str()), Some("futex"));
    assert_eq!(rules[4].pick(false, true).map(|s| s.as_str()), Some("futex_time64"));
    assert_eq!(rules[4].pick(false, false), None);
    assert_eq!(rules[0].pick(false, true), None);
}
