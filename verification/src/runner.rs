//! From a request to its result: admission under a policy, and the
//! result that each way of ending a run gives.

use crate::grader::{policy_verdict, risk_of, risk_score, verdict_of, MAX_RISK};
use crate::policy::{evaluate, plan_of, violation_of, ExecutionPlan, PolicyError};
use crate::schema::{
    verdict_exit_code, verdict_name, PolicyDoc, PolicyModel, RequestModel, SpellRequest,
    SpellResult, Verdict,
};
use vstd::prelude::*;

verus! {

/// Exit codes of the command-line program.
pub const EXIT_OK: i32 = 0;

pub const EXIT_INPUT: i32 = 1;

pub const EXIT_OUTPUT_SCHEMA: i32 = 2;

pub const EXIT_POLICY: i32 = 3;

pub const EXIT_RUNTIME: i32 = 4;

pub const EXIT_YELLOW: i32 = 10;

pub const EXIT_RED: i32 = 20;

/// The least risk that a refused request is reported with.
pub const REFUSED_RISK: u32 = 80;

/// Who reports the result: the command-line program or the worker.
#[derive(Debug, Clone, Copy)]
pub enum Surface {
    Cli,
    Worker,
}

/// Whether a request may run.
#[derive(Debug, Clone)]
pub enum Admission {
    /// The request violates the policy.
    Violation { error: PolicyError, risk_score: u32 },
    /// The request violates nothing, and its risk is graded red.
    Forbidden { risk_score: u32 },
    /// The request may run.
    Accepted { plan: ExecutionPlan, risk_score: u32, verdict: Verdict },
}

/// The risk that a refused request is reported with: its own, and at
/// least 80.
pub open spec fn refused_risk(req: RequestModel, policy: PolicyModel) -> int {
    if risk_of(req, policy) < 80 {
        80
    } else {
        risk_of(req, policy)
    }
}

/// Decides whether a request may run. A violation of the policy refuses
/// it; so does a red grade; any other request is admitted with its plan,
/// its risk and its verdict.
pub fn admission(req: &SpellRequest, policy: &PolicyDoc) -> (a: Admission)
    ensures
        match a {
            Admission::Violation { error, risk_score } => violation_of(req@, policy@) == Some(
                error@,
            ) && risk_score == refused_risk(req@, policy@),
            Admission::Forbidden { risk_score } => violation_of(req@, policy@) is None
                && risk_score == risk_of(req@, policy@) && verdict_of(risk_score, policy@)
                == Verdict::Red,
            Admission::Accepted { plan, risk_score, verdict } => violation_of(req@, policy@) is None
                && plan@ == plan_of(req@, policy@) && risk_score == risk_of(req@, policy@)
                && verdict == verdict_of(risk_score, policy@) && verdict != Verdict::Red,
        },
{
    let score = risk_score(req, policy);
    match evaluate(req, policy) {
        Err(error) => {
            let risk: u32 = if score < REFUSED_RISK {
                REFUSED_RISK
            } else {
                score
            };
            Admission::Violation { error, risk_score: risk }
        },
        Ok(plan) => {
            let verdict = policy_verdict(score, policy);
            match verdict {
                Verdict::Red => Admission::Forbidden { risk_score: score },
                _ => Admission::Accepted { plan, risk_score: score, verdict },
            }
        },
    }
}

/// How the execution of an admitted request ended.
#[derive(Debug, Clone, Copy)]
pub enum RunEnd {
    /// No child was started: a dry run, or an empty command.
    Skipped,
    /// The child exited with this code.
    Exited(i32),
    /// The child was ended by a signal and left no code.
    Killed,
    /// The wall-clock cap passed and the child was killed.
    TimedOut,
    /// The child could not be started.
    SpawnFailed,
}

/// A result is well formed where its verdict is one of the three, its
/// risk at most 100, and a red verdict comes with exit code 3 or 20.
pub open spec fn result_ok(r: SpellResult) -> bool {
    &&& r.verdict@ == verdict_name(Verdict::Green) || r.verdict@ == verdict_name(Verdict::Yellow)
        || r.verdict@ == verdict_name(Verdict::Red)
    &&& r.risk_score <= 100
    &&& r.verdict@ == verdict_name(Verdict::Red) ==> r.exit_code == 3 || r.exit_code == 20
}

/// The verdict that a run ends with: the graded one where the child
/// exited or none was started, red in every other case.
pub open spec fn final_verdict(graded: Verdict, end: RunEnd) -> Verdict {
    match end {
        RunEnd::Skipped => graded,
        RunEnd::Exited(_) => graded,
        _ => Verdict::Red,
    }
}

/// The exit code that a run ends with. Where no child was started it is
/// the verdict's. Where the child exited it is the child's under a green
/// grade, 10 under a yellow one and 20 under a red one. In every other
/// case it is 20.
pub open spec fn final_exit_code(graded: Verdict, end: RunEnd) -> i32 {
    match end {
        RunEnd::Skipped => verdict_exit_code(graded),
        RunEnd::Exited(code) => match graded {
            Verdict::Green => code,
            Verdict::Yellow => 10,
            Verdict::Red => 20,
        },
        _ => 20,
    }
}

/// The result of a request that was refused: red, with exit code 3 from
/// the command line and 20 from the worker, and no time spent.
pub fn refusal_result(run_id: &str, risk_score: u32, violation: bool, surface: Surface) -> (r:
    SpellResult)
    requires
        risk_score <= MAX_RISK,
    ensures
        result_ok(r),
        r.run_id@ == run_id@,
        r.verdict@ == verdict_name(Verdict::Red),
        r.risk_score == risk_score,
        r.exit_code == (if violation && surface is Cli {
            3i32
        } else {
            20i32
        }),
        r.duration_ms == 0,
        !r.stdout_trunc,
        r.sbom_attestation is None,
{
    let exit_code: i32 = match surface {
        Surface::Cli => if violation {
            EXIT_POLICY
        } else {
            EXIT_RED
        },
        Surface::Worker => EXIT_RED,
    };
    SpellResult {
        run_id: run_id.to_owned(),
        verdict: Verdict::Red.name().to_owned(),
        risk_score,
        exit_code,
        duration_ms: 0,
        stdout_trunc: false,
        sbom_attestation: None,
    }
}

/// The result of an admitted request once its execution has ended.
pub fn final_result(
    run_id: &str,
    risk_score: u32,
    graded: Verdict,
    end: RunEnd,
    duration_ms: u64,
) -> (r: SpellResult)
    requires
        risk_score <= MAX_RISK,
    ensures
        result_ok(r),
        r.run_id@ == run_id@,
        r.verdict@ == verdict_name(final_verdict(graded, end)),
        r.risk_score == risk_score,
        r.exit_code == final_exit_code(graded, end),
        r.duration_ms == duration_ms,
        !r.stdout_trunc,
        r.sbom_attestation is None,
{
    let (verdict, exit_code): (Verdict, i32) = match end {
        RunEnd::Skipped => (graded, graded.exit_code()),
        RunEnd::Exited(code) => match graded {
            Verdict::Green => (graded, code),
            Verdict::Yellow => (graded, EXIT_YELLOW),
            Verdict::Red => (graded, EXIT_RED),
        },
        RunEnd::Killed => (Verdict::Red, EXIT_RED),
        RunEnd::TimedOut => (Verdict::Red, EXIT_RED),
        RunEnd::SpawnFailed => (Verdict::Red, EXIT_RED),
    };
    proof {
        crate::schema::lemma_verdict_names_differ();
    }
    SpellResult {
        run_id: run_id.to_owned(),
        verdict: verdict.name().to_owned(),
        risk_score,
        exit_code,
        duration_ms,
        stdout_trunc: false,
        sbom_attestation: None,
    }
}

/// The code that the command-line program exits with for a result.
pub fn process_exit_code(result: &SpellResult) -> (code: i32)
    ensures
        code == result.exit_code,
{
    result.exit_code
}

/// A run that timed out is red with exit code 20, whatever it was graded.
pub proof fn lemma_timeout_is_red(graded: Verdict)
    ensures
        final_verdict(graded, RunEnd::TimedOut) == Verdict::Red,
        final_exit_code(graded, RunEnd::TimedOut) == 20,
{
}

/// A green result carries the child's exit code, or 0 where no child was
/// started.
pub proof fn lemma_green_exit_code(graded: Verdict, end: RunEnd)
    requires
        final_verdict(graded, end) == Verdict::Green,
    ensures
        match end {
            RunEnd::Exited(code) => final_exit_code(graded, end) == code,
            _ => final_exit_code(graded, end) == 0,
        },
{
}

/// A yellow result carries exit code 10.
pub proof fn lemma_yellow_exit_code(graded: Verdict, end: RunEnd)
    requires
        final_verdict(graded, end) == Verdict::Yellow,
    ensures
        final_exit_code(graded, end) == 10,
{
}

/// A red result carries exit code 20.
pub proof fn lemma_red_exit_code(graded: Verdict, end: RunEnd)
    requires
        final_verdict(graded, end) == Verdict::Red,
    ensures
        final_exit_code(graded, end) == 20,
{
}

/// A command that reaches for the network without any grant is always
/// refused as a violation, and reported with a risk of at least 61.
pub proof fn lemma_ungranted_net_is_red(req: RequestModel, policy: PolicyModel)
    requires
        crate::grader::net_intent(req.cmd),
        req.allow_net.len() == 0,
        policy.net_allow.len() == 0,
    ensures
        violation_of(req, policy) is Some,
        refused_risk(req, policy) >= 61,
{
    crate::policy::lemma_ungranted_net_is_refused(req, policy);
}

/// What can go wrong on the way from a request to its result.
#[derive(Debug, Clone, Copy, PartialEq, Eq)]
pub enum FailureKind {
    /// The input could not be read.
    InputRead,
    /// The input is no document.
    InputParse,
    /// The input has not the shape of a request.
    SchemaInput,
    /// The result has not the shape of a result.
    SchemaOutput,
    /// The request violates the policy.
    PolicyViolation,
    /// The child ran into its wall-clock cap.
    ExecTimeout,
    /// The child could not be started.
    ExecSpawn,
    /// A file could not be written.
    Io,
    /// The broker could not be reached.
    BrokerConnect,
    /// The broker did not take a message.
    BrokerPublish,
    /// The message was seen before.
    DedupeHit,
}

/// What the worker does with a message that failed.
#[derive(Debug, Clone, Copy, PartialEq, Eq)]
pub enum Disposition {
    /// Acknowledge the message and drop it.
    AckAndDrop,
    /// Publish a red result and acknowledge the message.
    PublishRedAndAck,
    /// Log, go on, and leave the message to be delivered again.
    LeaveUnacked,
}

/// The code that the command-line program exits with after a failure.
pub open spec fn failure_exit_code(kind: FailureKind) -> i32 {
    match kind {
        FailureKind::InputRead => 1,
        FailureKind::InputParse => 1,
        FailureKind::SchemaInput => 1,
        FailureKind::SchemaOutput => 2,
        FailureKind::PolicyViolation => 3,
        FailureKind::ExecTimeout => 20,
        FailureKind::DedupeHit => 0,
        _ => 4,
    }
}

/// What the worker does with a message after a failure: input that is no
/// request and duplicates are dropped, violations and failed executions
/// are answered in red, and trouble with the broker leaves the message
/// to the broker.
pub open spec fn disposition_of(kind: FailureKind) -> Disposition {
    match kind {
        FailureKind::InputRead => Disposition::AckAndDrop,
        FailureKind::InputParse => Disposition::AckAndDrop,
        FailureKind::SchemaInput => Disposition::AckAndDrop,
        FailureKind::DedupeHit => Disposition::AckAndDrop,
        FailureKind::BrokerConnect => Disposition::LeaveUnacked,
        FailureKind::BrokerPublish => Disposition::LeaveUnacked,
        _ => Disposition::PublishRedAndAck,
    }
}

/// The code that the command-line program exits with after a failure.
pub fn failure_exit(kind: FailureKind) -> (code: i32)
    ensures
        code == failure_exit_code(kind),
{
    match kind {
        FailureKind::InputRead => EXIT_INPUT,
        FailureKind::InputParse => EXIT_INPUT,
        FailureKind::SchemaInput => EXIT_INPUT,
        FailureKind::SchemaOutput => EXIT_OUTPUT_SCHEMA,
        FailureKind::PolicyViolation => EXIT_POLICY,
        FailureKind::ExecTimeout => EXIT_RED,
        FailureKind::DedupeHit => EXIT_OK,
        _ => EXIT_RUNTIME,
    }
}

/// What the worker does with a message after a failure.
pub fn disposition(kind: FailureKind) -> (d: Disposition)
    ensures
        d == disposition_of(kind),
{
    match kind {
        FailureKind::InputRead => Disposition::AckAndDrop,
        FailureKind::InputParse => Disposition::AckAndDrop,
        FailureKind::SchemaInput => Disposition::AckAndDrop,
        FailureKind::DedupeHit => Disposition::AckAndDrop,
        FailureKind::BrokerConnect => Disposition::LeaveUnacked,
        FailureKind::BrokerPublish => Disposition::LeaveUnacked,
        _ => Disposition::PublishRedAndAck,
    }
}

/// Whether a failure ends the worker: only a broker that cannot be
/// reached when the worker starts.
pub fn is_fatal(kind: FailureKind, at_startup: bool) -> (fatal: bool)
    ensures
        fatal == (kind == FailureKind::BrokerConnect && at_startup),
{
    match kind {
        FailureKind::BrokerConnect => at_startup,
        _ => false,
    }
}

/// The files that keep a red result and the streams of its child.
#[derive(Debug, Clone)]
pub struct QuarantineFiles {
    pub result: String,
    pub stdout: String,
    pub stderr: String,
}

/// The name of a file in quarantine: its stem, the run's identifier
/// where the worker writes it, and its ending.
pub open spec fn quarantine_name(stem: Seq<char>, run_id: Option<Seq<char>>, ending: Seq<char>) -> Seq<
    char,
> {
    match run_id {
        Some(id) => stem + "."@ + id + ending,
        None => stem + ending,
    }
}

fn quarantine_file(stem: &str, run_id: Option<&str>, ending: &str) -> (s: String)
    ensures
        s@ == quarantine_name(stem@, crate::endpoint::opt_text(run_id), ending@),
{
    let mut c: Vec<char> = Vec::new();
    crate::text::push_str_chars(&mut c, stem);
    match run_id {
        Some(id) => {
            crate::text::push_str_chars(&mut c, ".");
            crate::text::push_str_chars(&mut c, id);
        },
        None => {},
    }
    crate::text::push_str_chars(&mut c, ending);
    assert(c@ =~= quarantine_name(stem@, crate::endpoint::opt_text(run_id), ending@));
    crate::text::from_chars(c.as_slice())
}

/// The directory that keeps red results.
pub const QUARANTINE_DIR: &'static str = "quarantine";

/// The names of the files that keep a red result: `result.red.json`,
/// `stdout.txt` and `stderr.txt`, with the run's identifier before the
/// ending where one is given.
pub fn quarantine_files(run_id: Option<&str>) -> (q: QuarantineFiles)
    ensures
        q.result@ == quarantine_name("result.red"@, crate::endpoint::opt_text(run_id), ".json"@),
        q.stdout@ == quarantine_name("stdout"@, crate::endpoint::opt_text(run_id), ".txt"@),
        q.stderr@ == quarantine_name("stderr"@, crate::endpoint::opt_text(run_id), ".txt"@),
{
    QuarantineFiles {
        result: quarantine_file("result.red", run_id, ".json"),
        stdout: quarantine_file("stdout", run_id, ".txt"),
        stderr: quarantine_file("stderr", run_id, ".txt"),
    }
}

/// Whether a result goes to quarantine: every red one does.
pub fn needs_quarantine(result: &SpellResult) -> (b: bool)
    ensures
        b == (result.verdict@ == verdict_name(Verdict::Red)),
{
    crate::dedupe::str_same(result.verdict.as_str(), "red")
}

} // verus!
