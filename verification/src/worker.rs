//! The decisions of the message worker: which messages are duplicates,
//! what is published for each of the others, and when the broker gets its
//! acknowledgement. Fetching, publishing and waiting are left to the
//! caller.

use crate::dedupe::{ring_insert, DedupeRing};
use crate::hash::{compute_msg_id, hex_lower, run_id, run_id_of, sha2_digest};
use crate::grader::{risk_of, verdict_of};
use crate::policy::{plan_of, violation_of, ExecutionPlan};
use crate::runner::{
    admission, final_exit_code, final_result, final_verdict, refusal_result, refused_risk,
    result_ok, Admission, RunEnd, Surface,
};
use crate::schema::{verdict_name, PolicyDoc, SpellRequest, SpellResult, Verdict};
use crate::text::{decimal, from_chars, push_decimal, push_str_chars, texts};
use vstd::prelude::*;

verus! {

/// What the worker is set up with.
#[derive(Debug, Clone, Copy)]
pub struct WorkerConfig {
    /// The capacity of the ring of seen message identifiers.
    pub dedupe_max: usize,
    /// After how many messages the counters are logged; never where 0.
    pub metrics_every: u64,
    /// Whether the acknowledgement of the first delivery of every run is
    /// left out, so that the broker delivers it again.
    pub skip_ack_once: bool,
    /// The broker's duplicate window in seconds.
    pub dup_window_sec: u64,
    /// How many unacknowledged messages the consumer may hold.
    pub max_ack_pending: i64,
    /// How long the broker waits for an acknowledgement, in seconds.
    pub ack_wait_sec: u64,
    /// How long the worker waits for the publisher's confirmation, in
    /// seconds.
    pub ack_ack_wait_sec: u64,
}

impl Default for WorkerConfig {
    fn default() -> (r: Self)
        ensures
            r.dedupe_max == 1024,
            r.metrics_every == 100,
            !r.skip_ack_once,
            r.dup_window_sec == 120,
            r.max_ack_pending == 2048,
            r.ack_wait_sec == 30,
            r.ack_ack_wait_sec == 2,
    {
        WorkerConfig {
            dedupe_max: 1024,
            metrics_every: 100,
            skip_ack_once: false,
            dup_window_sec: 120,
            max_ack_pending: 2048,
            ack_wait_sec: 30,
            ack_ack_wait_sec: 2,
        }
    }
}

/// The counters of a worker.
#[derive(Debug, Clone, Copy)]
pub struct Metrics {
    pub processed_total: u64,
    pub dupe_total: u64,
    pub red_total: u64,
}

/// One more, unless the counter is at its largest value.
pub open spec fn bump(n: u64) -> u64 {
    if n < u64::MAX {
        (n + 1) as u64
    } else {
        n
    }
}

fn bumped(n: u64) -> (r: u64)
    ensures
        r == bump(n),
{
    if n < u64::MAX {
        n + 1
    } else {
        n
    }
}

/// A result to publish, and whether the request is then acknowledged to
/// the broker.
#[derive(Debug, Clone)]
pub struct Publication {
    /// The subject that the result goes to: `run.res.` and the run's
    /// identifier.
    pub subject: String,
    /// The subject on which the publisher confirms: `run.ack.` and the
    /// run's identifier.
    pub ack_subject: String,
    pub result: SpellResult,
    pub ack: bool,
}

/// An admitted run that waits for its execution.
#[derive(Debug, Clone)]
pub struct RunTicket {
    pub run_id: String,
    pub plan: ExecutionPlan,
    pub risk_score: u32,
    pub verdict: Verdict,
}

/// What to do with a message.
#[derive(Debug, Clone)]
pub enum Intake {
    /// Seen before: acknowledge it, publish nothing.
    Duplicate,
    /// Not a request: acknowledge it, publish nothing.
    Malformed,
    /// Refused: publish the red result, start no child.
    Refused(Publication),
    /// Admitted: write the files, run the command, then report how it
    /// ended.
    Run(RunTicket),
}

impl Intake {
    /// Whether the message is acknowledged to the broker right away:
    /// always for a duplicate and for a malformed message, as the
    /// publication says for a refused one, and not before its completion
    /// for an admitted one.
    pub open spec fn acks_now(self) -> bool {
        match self {
            Intake::Duplicate => true,
            Intake::Malformed => true,
            Intake::Refused(p) => p.ack,
            Intake::Run(_) => false,
        }
    }

    /// Whether a result is published right away: only for a refused
    /// message.
    pub open spec fn publishes_now(self) -> bool {
        self is Refused
    }

    /// Whether the message is acknowledged to the broker right away.
    pub fn acknowledge(&self) -> (b: bool)
        ensures
            b == self.acks_now(),
    {
        match self {
            Intake::Duplicate => true,
            Intake::Malformed => true,
            Intake::Refused(p) => p.ack,
            Intake::Run(_) => false,
        }
    }

    /// The result to publish right away, if there is one.
    pub fn publication(&self) -> (r: Option<&Publication>)
        ensures
            r is Some == self.publishes_now(),
            match *self {
                Intake::Refused(p) => r is Some && *(r->0) == p,
                _ => r is None,
            },
    {
        match self {
            Intake::Refused(p) => Some(p),
            _ => None,
        }
    }
}

/// The identifier of a message: the one its header carries, or else the
/// digest of its payload in hexadecimal.
pub open spec fn msg_id_of(header_id: Option<Seq<char>>, payload: Seq<u8>) -> Seq<char> {
    match header_id {
        Some(id) => id,
        None => hex_lower(sha2_digest(payload)),
    }
}

/// The identifier of a message.
pub fn message_id(header_id: Option<&str>, payload: &[u8]) -> (id: String)
    ensures
        id@ == msg_id_of(crate::endpoint::opt_text(header_id), payload@),
{
    match header_id {
        Some(h) => h.to_owned(),
        None => compute_msg_id(payload),
    }
}

/// The subject that the result of a run is published on.
pub open spec fn result_subject_of(run_id: Seq<char>) -> Seq<char> {
    "run.res."@ + run_id
}

/// The subject on which the publisher confirms a result.
pub open spec fn ack_subject_of(run_id: Seq<char>) -> Seq<char> {
    "run.ack."@ + run_id
}

/// The subject that the result of a run is published on.
pub fn result_subject(run_id: &str) -> (s: String)
    ensures
        s@ == result_subject_of(run_id@),
{
    let mut chars: Vec<char> = Vec::new();
    push_str_chars(&mut chars, "run.res.");
    push_str_chars(&mut chars, run_id);
    assert(chars@ =~= result_subject_of(run_id@));
    from_chars(chars.as_slice())
}

/// The subject on which the publisher confirms a result.
pub fn ack_subject(run_id: &str) -> (s: String)
    ensures
        s@ == ack_subject_of(run_id@),
{
    let mut chars: Vec<char> = Vec::new();
    push_str_chars(&mut chars, "run.ack.");
    push_str_chars(&mut chars, run_id);
    assert(chars@ =~= ack_subject_of(run_id@));
    from_chars(chars.as_slice())
}

/// The state of a worker: the identifiers it has seen, its counters, and
/// the runs whose first acknowledgement it has left out.
pub struct Worker {
    pub ring: DedupeRing,
    pub metrics: Metrics,
    pub skip_ack_once: bool,
    pub skipped: Vec<String>,
    pub metrics_every: u64,
}

/// The runs whose acknowledgement has been left out, after a result for
/// `run_id` has been published.
pub open spec fn skipped_after(skip: bool, skipped: Seq<Seq<char>>, run_id: Seq<char>) -> Seq<
    Seq<char>,
> {
    if skip && !skipped.contains(run_id) {
        skipped.push(run_id)
    } else {
        skipped
    }
}

/// Whether the request is acknowledged after the result for `run_id` has
/// been published: always, but for the first result of a run where such
/// acknowledgements are left out.
pub open spec fn acked(skip: bool, skipped: Seq<Seq<char>>, run_id: Seq<char>) -> bool {
    !(skip && !skipped.contains(run_id))
}

impl Worker {
    /// The worker keeps its ring within bounds.
    pub open spec fn wf(&self) -> bool {
        self.ring.wf()
    }

    /// A worker that has seen nothing.
    pub fn new(config: &WorkerConfig) -> (w: Self)
        ensures
            w.wf(),
            w.ring@.len() == 0,
            w.ring.capacity() == config.dedupe_max,
            w.metrics.processed_total == 0,
            w.metrics.dupe_total == 0,
            w.metrics.red_total == 0,
            w.skip_ack_once == config.skip_ack_once,
            w.skipped@.len() == 0,
            w.metrics_every == config.metrics_every,
    {
        Worker {
            ring: DedupeRing::new(config.dedupe_max),
            metrics: Metrics { processed_total: 0, dupe_total: 0, red_total: 0 },
            skip_ack_once: config.skip_ack_once,
            skipped: Vec::new(),
            metrics_every: config.metrics_every,
        }
    }

    fn was_skipped(&self, run_id: &str) -> (b: bool)
        ensures
            b == texts(self.skipped@).contains(run_id@),
    {
        let mut i: usize = 0;
        while i < self.skipped.len()
            invariant
                i <= self.skipped@.len(),
                forall|j: int| 0 <= j < i ==> (#[trigger] texts(self.skipped@)[j]) != run_id@,
            decreases self.skipped@.len() - i,
        {
            if crate::dedupe::str_same(self.skipped[i].as_str(), run_id) {
                assert(texts(self.skipped@)[i as int] == run_id@);
                return true;
            }
            i += 1;
        }
        false
    }

    /// Decides whether the result just published for `run_id` is followed
    /// by an acknowledgement, and remembers a first one that is left out.
    fn settle_ack(&mut self, run_id: &str) -> (ack: bool)
        ensures
            ack == acked(old(self).skip_ack_once, texts(old(self).skipped@), run_id@),
            texts(final(self).skipped@) == skipped_after(
                old(self).skip_ack_once,
                texts(old(self).skipped@),
                run_id@,
            ),
            final(self).ring == old(self).ring,
            final(self).metrics == old(self).metrics,
            final(self).skip_ack_once == old(self).skip_ack_once,
            final(self).metrics_every == old(self).metrics_every,
    {
        if self.skip_ack_once && !self.was_skipped(run_id) {
            let ghost before = texts(self.skipped@);
            self.skipped.push(run_id.to_owned());
            assert(texts(self.skipped@) =~= before.push(run_id@));
            false
        } else {
            true
        }
    }

    /// Takes in a message: its identifier from the header if it has one,
    /// its payload, and the request that the payload parses to, if any.
    ///
    /// Every message is counted. One whose identifier the ring holds is a
    /// duplicate. Any other identifier enters the ring; the message is
    /// malformed where it has no request, refused where the policy or the
    /// grade forbids it, and admitted otherwise.
    pub fn receive(
        &mut self,
        header_id: Option<&str>,
        payload: &[u8],
        request: Option<&SpellRequest>,
        policy: &PolicyDoc,
    ) -> (intake: Intake)
        requires
            old(self).wf(),
        ensures
            final(self).wf(),
            final(self).ring@ == ring_insert(
                old(self).ring@,
                msg_id_of(crate::endpoint::opt_text(header_id), payload@),
                old(self).ring.capacity(),
            ),
            final(self).ring.capacity() == old(self).ring.capacity(),
            final(self).metrics.processed_total == bump(old(self).metrics.processed_total),
            final(self).skip_ack_once == old(self).skip_ack_once,
            final(self).metrics_every == old(self).metrics_every,
            old(self).ring@.contains(msg_id_of(crate::endpoint::opt_text(header_id), payload@))
                <==> intake is Duplicate,
            intake is Duplicate ==> final(self).metrics.dupe_total == bump(
                old(self).metrics.dupe_total,
            ) && final(self).metrics.red_total == old(self).metrics.red_total && final(self).skipped == old(self).skipped,
            !(intake is Duplicate) ==> final(self).metrics.dupe_total == old(self).metrics.dupe_total,
            intake is Malformed <==> !(intake is Duplicate) && request is None,
            intake is Malformed ==> final(self).metrics.red_total == old(self).metrics.red_total
                && final(self).skipped == old(self).skipped,
            match intake {
                Intake::Refused(p) => request is Some && ({
                    let req = request->0@;
                    let id = run_id_of(payload@, req.seed);
                    &&& violation_of(req, policy@) is Some || verdict_of(
                        risk_of(req, policy@) as u32,
                        policy@,
                    ) == Verdict::Red
                    &&& result_ok(p.result)
                    &&& p.result.run_id@ == id
                    &&& p.result.verdict@ == verdict_name(Verdict::Red)
                    &&& p.result.exit_code == 20
                    &&& p.result.duration_ms == 0
                    &&& p.result.risk_score == (if violation_of(req, policy@) is Some {
                        refused_risk(req, policy@)
                    } else {
                        risk_of(req, policy@)
                    })
                    &&& p.subject@ == result_subject_of(id)
                    &&& p.ack_subject@ == ack_subject_of(id)
                    &&& p.ack == acked(old(self).skip_ack_once, texts(old(self).skipped@), id)
                    &&& texts(final(self).skipped@) == skipped_after(
                        old(self).skip_ack_once,
                        texts(old(self).skipped@),
                        id,
                    )
                    &&& final(self).metrics.red_total == bump(old(self).metrics.red_total)
                }),
                Intake::Run(t) => request is Some && ({
                    let req = request->0@;
                    &&& violation_of(req, policy@) is None
                    &&& t.run_id@ == run_id_of(payload@, req.seed)
                    &&& t.plan@ == plan_of(req, policy@)
                    &&& t.risk_score == risk_of(req, policy@)
                    &&& t.verdict == verdict_of(t.risk_score, policy@)
                    &&& t.verdict != Verdict::Red
                    &&& final(self).metrics.red_total == old(self).metrics.red_total
                    &&& final(self).skipped == old(self).skipped
                }),
                _ => true,
            },
    {
        self.metrics.processed_total = bumped(self.metrics.processed_total);
        let id = message_id(header_id, payload);
        if self.ring.observe(id.as_str()) {
            self.metrics.dupe_total = bumped(self.metrics.dupe_total);
            return Intake::Duplicate;
        }
        let req: &SpellRequest = match request {
            Some(r) => r,
            None => {
                return Intake::Malformed;
            },
        };
        let rid = run_id(payload, req.seed);
        match admission(req, policy) {
            Admission::Violation { error, risk_score } => {
                let result = refusal_result(rid.as_str(), risk_score, true, Surface::Worker);
                self.metrics.red_total = bumped(self.metrics.red_total);
                let ack = self.settle_ack(rid.as_str());
                Intake::Refused(
                    Publication {
                        subject: result_subject(rid.as_str()),
                        ack_subject: ack_subject(rid.as_str()),
                        result,
                        ack,
                    },
                )
            },
            Admission::Forbidden { risk_score } => {
                let result = refusal_result(rid.as_str(), risk_score, false, Surface::Worker);
                self.metrics.red_total = bumped(self.metrics.red_total);
                let ack = self.settle_ack(rid.as_str());
                Intake::Refused(
                    Publication {
                        subject: result_subject(rid.as_str()),
                        ack_subject: ack_subject(rid.as_str()),
                        result,
                        ack,
                    },
                )
            },
            Admission::Accepted { plan, risk_score, verdict } => Intake::Run(
                RunTicket { run_id: rid, plan, risk_score, verdict },
            ),
        }
    }

    /// Reports how the execution of an admitted run ended, and gets the
    /// result to publish for it.
    pub fn complete(&mut self, ticket: &RunTicket, end: RunEnd, duration_ms: u64) -> (p:
        Publication)
        requires
            old(self).wf(),
            ticket.risk_score <= 100,
        ensures
            final(self).wf(),
            final(self).ring == old(self).ring,
            final(self).skip_ack_once == old(self).skip_ack_once,
            final(self).metrics_every == old(self).metrics_every,
            final(self).metrics.processed_total == old(self).metrics.processed_total,
            final(self).metrics.dupe_total == old(self).metrics.dupe_total,
            final(self).metrics.red_total == (if final_verdict(ticket.verdict, end)
                == Verdict::Red {
                bump(old(self).metrics.red_total)
            } else {
                old(self).metrics.red_total
            }),
            result_ok(p.result),
            p.result.run_id@ == ticket.run_id@,
            p.result.verdict@ == verdict_name(final_verdict(ticket.verdict, end)),
            p.result.exit_code == final_exit_code(ticket.verdict, end),
            p.result.risk_score == ticket.risk_score,
            p.result.duration_ms == duration_ms,
            p.subject@ == result_subject_of(ticket.run_id@),
            p.ack_subject@ == ack_subject_of(ticket.run_id@),
            p.ack == acked(old(self).skip_ack_once, texts(old(self).skipped@), ticket.run_id@),
            texts(final(self).skipped@) == skipped_after(
                old(self).skip_ack_once,
                texts(old(self).skipped@),
                ticket.run_id@,
            ),
    {
        let result = final_result(
            ticket.run_id.as_str(),
            ticket.risk_score,
            ticket.verdict,
            end,
            duration_ms,
        );
        let graded_red: bool = match ticket.verdict {
            Verdict::Red => true,
            _ => false,
        };
        let red: bool = match end {
            RunEnd::Skipped => graded_red,
            RunEnd::Exited(_) => graded_red,
            _ => true,
        };
        if red {
            self.metrics.red_total = bumped(self.metrics.red_total);
        }
        let ack = self.settle_ack(ticket.run_id.as_str());
        Publication {
            subject: result_subject(ticket.run_id.as_str()),
            ack_subject: ack_subject(ticket.run_id.as_str()),
            result,
            ack,
        }
    }

    /// Whether the counters are due to be logged: after every
    /// `metrics_every` messages, and never where that is 0.
    pub fn metrics_due(&self) -> (due: bool)
        ensures
            due == (self.metrics_every > 0 && self.metrics.processed_total % self.metrics_every
                == 0),
    {
        self.metrics_every > 0 && self.metrics.processed_total % self.metrics_every == 0
    }
}

/// The counters as a text file for a metrics collector.
pub open spec fn metrics_text(m: Metrics) -> Seq<char> {
    "# magicrune metrics\n"@ + "magicrune_processed_total "@ + decimal(m.processed_total as nat)
        + "\n"@ + "magicrune_dupe_total "@ + decimal(m.dupe_total as nat) + "\n"@
        + "magicrune_red_total "@ + decimal(m.red_total as nat) + "\n"@
}

/// The counters as a JSON object.
pub open spec fn metrics_json(m: Metrics) -> Seq<char> {
    "{\"processed_total\":"@ + decimal(m.processed_total as nat) + ",\"dupe_total\":"@
        + decimal(m.dupe_total as nat) + ",\"red_total\":"@ + decimal(m.red_total as nat) + "}"@
}

/// The counters as a text file for a metrics collector.
pub fn render_metrics_text(m: &Metrics) -> (s: String)
    ensures
        s@ == metrics_text(*m),
{
    let mut c: Vec<char> = Vec::new();
    push_str_chars(&mut c, "# magicrune metrics\n");
    push_str_chars(&mut c, "magicrune_processed_total ");
    push_decimal(&mut c, m.processed_total);
    push_str_chars(&mut c, "\n");
    push_str_chars(&mut c, "magicrune_dupe_total ");
    push_decimal(&mut c, m.dupe_total);
    push_str_chars(&mut c, "\n");
    push_str_chars(&mut c, "magicrune_red_total ");
    push_decimal(&mut c, m.red_total);
    push_str_chars(&mut c, "\n");
    assert(c@ =~= metrics_text(*m));
    from_chars(c.as_slice())
}

/// The counters as a JSON object.
pub fn render_metrics_json(m: &Metrics) -> (s: String)
    ensures
        s@ == metrics_json(*m),
{
    let mut c: Vec<char> = Vec::new();
    push_str_chars(&mut c, "{\"processed_total\":");
    push_decimal(&mut c, m.processed_total);
    push_str_chars(&mut c, ",\"dupe_total\":");
    push_decimal(&mut c, m.dupe_total);
    push_str_chars(&mut c, ",\"red_total\":");
    push_decimal(&mut c, m.red_total);
    push_str_chars(&mut c, "}");
    assert(c@ =~= metrics_json(*m));
    from_chars(c.as_slice())
}

/// How long the publisher waits for a result where nothing else is asked
/// for, in seconds.
pub const PUBLISH_TIMEOUT_SEC: u64 = 5;

/// What the publisher of a request says and listens to.
#[derive(Debug, Clone)]
pub struct PublishPlan {
    /// The identifier of the run that the request asks for.
    pub run_id: String,
    /// The identifier that the message carries in its header.
    pub msg_id: String,
    /// The subject on which the result arrives.
    pub result_subject: String,
    /// The subject on which the receipt of the result is confirmed.
    pub ack_subject: String,
}

/// What the publisher of a request says and listens to: the worker
/// derives the same run identifier from the same payload and seed.
pub fn publish_plan(payload: &[u8], seed: Option<u64>) -> (p: PublishPlan)
    ensures
        p.run_id@ == run_id_of(payload@, seed),
        p.msg_id@ == hex_lower(sha2_digest(payload@)),
        p.result_subject@ == result_subject_of(run_id_of(payload@, seed)),
        p.ack_subject@ == ack_subject_of(run_id_of(payload@, seed)),
{
    let rid = run_id(payload, seed);
    PublishPlan {
        msg_id: compute_msg_id(payload),
        result_subject: result_subject(rid.as_str()),
        ack_subject: ack_subject(rid.as_str()),
        run_id: rid,
    }
}

} // verus!
