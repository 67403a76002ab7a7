//! Structured log events. The library says what is to be logged; a
//! program hands the events to its logging sink.

use crate::adapters::millis_u64;
use crate::policy::var_pairs;
use crate::text::{decimal, decimal_chars, from_chars, push_decimal};
use core::time::Duration;
use std::time::Instant;
use vstd::prelude::*;

verus! {

/// `std::time::Instant`, a moment of the monotonic clock; nothing of its
/// inside is known here.
#[verifier::external_type_specification]
#[verifier::external_body]
pub struct ExInstant(Instant);

/// `std::time::Instant::now`: the present moment, of which nothing is
/// known beforehand.
pub assume_specification[ Instant::now ]() -> (t: Instant)
;

/// `std::time::Instant::elapsed`: the time since that moment, of which
/// nothing is known beforehand.
pub assume_specification[ Instant::elapsed ](t: &Instant) -> (d: Duration)
;

/// `Clone` of `std::time::Instant`: a copy of the moment.
pub assume_specification[ <Instant as Clone>::clone ](t: &Instant) -> (r: Instant)
;

/// How much an event matters.
#[derive(Debug, Clone, Copy, PartialEq, Eq)]
pub enum LogLevel {
    Debug,
    Info,
    Warn,
    Error,
}

/// An event to log: its level, its message, and its fields in order.
#[derive(Debug, Clone)]
pub struct LogEvent {
    pub level: LogLevel,
    pub message: String,
    pub fields: Vec<(String, String)>,
}

/// An event as plain values.
pub struct EventModel {
    pub level: LogLevel,
    pub message: Seq<char>,
    pub fields: Seq<(Seq<char>, Seq<char>)>,
}

impl View for LogEvent {
    type V = EventModel;

    open spec fn view(&self) -> EventModel {
        EventModel { level: self.level, message: self.message@, fields: var_pairs(self.fields@) }
    }
}

/// The views of a list of events.
pub open spec fn events_view(v: Seq<LogEvent>) -> Seq<EventModel> {
    v.map_values(|e: LogEvent| e@)
}

/// A whole number in decimal, with its sign where it is negative.
pub open spec fn signed_decimal(n: int) -> Seq<char> {
    if n < 0 {
        seq!['-'] + decimal((-n) as nat)
    } else {
        decimal(n as nat)
    }
}

/// `true` or `false`.
pub open spec fn bool_text(b: bool) -> Seq<char> {
    if b {
        "true"@
    } else {
        "false"@
    }
}

fn kv(key: &str, value: &str) -> (r: (String, String))
    ensures
        r.0@ == key@,
        r.1@ == value@,
{
    (key.to_owned(), value.to_owned())
}

fn kv_number(key: &str, value: u64) -> (r: (String, String))
    ensures
        r.0@ == key@,
        r.1@ == decimal(value as nat),
{
    let c = decimal_chars(value);
    (key.to_owned(), from_chars(c.as_slice()))
}

fn kv_signed(key: &str, value: i32) -> (r: (String, String))
    ensures
        r.0@ == key@,
        r.1@ == signed_decimal(value as int),
{
    let mut c: Vec<char> = Vec::new();
    let wide: i64 = value as i64;
    if wide < 0 {
        c.push('-');
        push_decimal(&mut c, (0 - wide) as u64);
        assert(c@ =~= signed_decimal(value as int));
    } else {
        push_decimal(&mut c, wide as u64);
        assert(c@ =~= signed_decimal(value as int));
    }
    (key.to_owned(), from_chars(c.as_slice()))
}

fn kv_bool(key: &str, value: bool) -> (r: (String, String))
    ensures
        r.0@ == key@,
        r.1@ == bool_text(value),
{
    if value {
        kv(key, "true")
    } else {
        kv(key, "false")
    }
}

/// The events that report a completed execution: the completion itself,
/// then its duration and its risk score as metrics.
pub open spec fn completion_events_of(
    run_id: Seq<char>,
    verdict: Seq<char>,
    risk_score: u32,
    exit_code: i32,
    duration_ms: u64,
) -> Seq<EventModel> {
    seq![
        EventModel {
            level: LogLevel::Info,
            message: "Execution completed"@,
            fields: seq![
                ("run_id"@, run_id),
                ("verdict"@, verdict),
                ("risk_score"@, decimal(risk_score as nat)),
                ("exit_code"@, signed_decimal(exit_code as int)),
                ("duration_ms"@, decimal(duration_ms as nat)),
            ],
        },
        EventModel {
            level: LogLevel::Info,
            message: "metric"@,
            fields: seq![
                ("metric_name"@, "magicrune_execution_duration_ms"@),
                ("value"@, decimal(duration_ms as nat)),
                ("run_id"@, run_id),
                ("verdict"@, verdict),
            ],
        },
        EventModel {
            level: LogLevel::Info,
            message: "metric"@,
            fields: seq![
                ("metric_name"@, "magicrune_risk_score"@),
                ("value"@, decimal(risk_score as nat)),
                ("run_id"@, run_id),
                ("verdict"@, verdict),
            ],
        },
    ]
}

/// The events that report a completed execution.
pub fn completion_events(
    run_id: &str,
    verdict: &str,
    risk_score: u32,
    exit_code: i32,
    duration_ms: u64,
) -> (r: Vec<LogEvent>)
    ensures
        events_view(r@) == completion_events_of(
            run_id@,
            verdict@,
            risk_score,
            exit_code,
            duration_ms,
        ),
{
    let mut f1: Vec<(String, String)> = Vec::new();
    f1.push(kv("run_id", run_id));
    f1.push(kv("verdict", verdict));
    f1.push(kv_number("risk_score", risk_score as u64));
    f1.push(kv_signed("exit_code", exit_code));
    f1.push(kv_number("duration_ms", duration_ms));
    let mut f2: Vec<(String, String)> = Vec::new();
    f2.push(kv("metric_name", "magicrune_execution_duration_ms"));
    f2.push(kv_number("value", duration_ms));
    f2.push(kv("run_id", run_id));
    f2.push(kv("verdict", verdict));
    let mut f3: Vec<(String, String)> = Vec::new();
    f3.push(kv("metric_name", "magicrune_risk_score"));
    f3.push(kv_number("value", risk_score as u64));
    f3.push(kv("run_id", run_id));
    f3.push(kv("verdict", verdict));
    let ghost want = completion_events_of(run_id@, verdict@, risk_score, exit_code, duration_ms);
    assert(var_pairs(f1@) =~= want[0].fields);
    assert(var_pairs(f2@) =~= want[1].fields);
    assert(var_pairs(f3@) =~= want[2].fields);
    let mut r: Vec<LogEvent> = Vec::new();
    r.push(LogEvent { level: LogLevel::Info, message: "Execution completed".to_owned(), fields: f1 });
    r.push(LogEvent { level: LogLevel::Info, message: "metric".to_owned(), fields: f2 });
    r.push(LogEvent { level: LogLevel::Info, message: "metric".to_owned(), fields: f3 });
    assert(events_view(r@) =~= want);
    r
}

/// The events that report an occurrence of a kind: the occurrence at its
/// level, with the run and two fields that describe it, then a metric
/// that counts one more of the kind.
pub open spec fn occurrence_events_of(
    level: LogLevel,
    message: Seq<char>,
    metric: Seq<char>,
    run_id: Seq<char>,
    kind_key: Seq<char>,
    kind: Seq<char>,
    detail_key: Seq<char>,
    detail: Seq<char>,
) -> Seq<EventModel> {
    seq![
        EventModel {
            level,
            message,
            fields: seq![("run_id"@, run_id), (kind_key, kind), (detail_key, detail)],
        },
        EventModel {
            level: LogLevel::Info,
            message: "metric"@,
            fields: seq![
                ("metric_name"@, metric),
                ("value"@, decimal(1)),
                ("run_id"@, run_id),
                (kind_key, kind),
            ],
        },
    ]
}

fn occurrence_events(
    level: LogLevel,
    message: &str,
    metric: &str,
    run_id: &str,
    kind_key: &str,
    kind: &str,
    detail_key: &str,
    detail: &str,
) -> (r: Vec<LogEvent>)
    ensures
        events_view(r@) == occurrence_events_of(
            level,
            message@,
            metric@,
            run_id@,
            kind_key@,
            kind@,
            detail_key@,
            detail@,
        ),
{
    let mut f1: Vec<(String, String)> = Vec::new();
    f1.push(kv("run_id", run_id));
    f1.push(kv(kind_key, kind));
    f1.push(kv(detail_key, detail));
    let mut f2: Vec<(String, String)> = Vec::new();
    f2.push(kv("metric_name", metric));
    f2.push(kv_number("value", 1));
    f2.push(kv("run_id", run_id));
    f2.push(kv(kind_key, kind));
    let ghost want = occurrence_events_of(
        level,
        message@,
        metric@,
        run_id@,
        kind_key@,
        kind@,
        detail_key@,
        detail@,
    );
    assert(var_pairs(f1@) =~= want[0].fields);
    assert(var_pairs(f2@) =~= want[1].fields);
    let mut r: Vec<LogEvent> = Vec::new();
    r.push(LogEvent { level, message: message.to_owned(), fields: f1 });
    r.push(LogEvent { level: LogLevel::Info, message: "metric".to_owned(), fields: f2 });
    assert(events_view(r@) =~= want);
    r
}

/// The span of an execution: its name and its fields.
#[derive(Debug, Clone)]
pub struct SpanInfo {
    pub name: String,
    pub fields: Vec<(String, String)>,
}

/// An execution that is being observed: the run, its policy, and the
/// moment at which it began.
#[derive(Debug, Clone)]
pub struct ExecutionContext {
    pub run_id: String,
    pub policy_id: String,
    pub start_time: Instant,
}

impl ExecutionContext {
    /// The context of an execution that begins now.
    pub fn new(run_id: String, policy_id: String) -> (c: Self)
        ensures
            c.run_id == run_id,
            c.policy_id == policy_id,
    {
        ExecutionContext { run_id, policy_id, start_time: Instant::now() }
    }

    /// The span of this execution: `exec`, with the run, the policy and
    /// the kind `server`.
    pub fn span(&self) -> (s: SpanInfo)
        ensures
            s.name@ == "exec"@,
            var_pairs(s.fields@) == seq![
                ("run_id"@, self.run_id@),
                ("policy_id"@, self.policy_id@),
                ("otel.kind"@, "server"@),
            ],
    {
        let mut f: Vec<(String, String)> = Vec::new();
        f.push(kv("run_id", self.run_id.as_str()));
        f.push(kv("policy_id", self.policy_id.as_str()));
        f.push(kv("otel.kind", "server"));
        assert(var_pairs(f@) =~= seq![
            ("run_id"@, self.run_id@),
            ("policy_id"@, self.policy_id@),
            ("otel.kind"@, "server"@),
        ]);
        SpanInfo { name: "exec".to_owned(), fields: f }
    }

    /// The events that report the completion of this execution, with the
    /// time that has passed since it began.
    pub fn record_completion(&self, verdict: &str, risk_score: u32, exit_code: i32) -> (r: Vec<
        LogEvent,
    >)
        ensures
            exists|duration_ms: u64|
                events_view(r@) == #[trigger] completion_events_of(
                    self.run_id@,
                    verdict@,
                    risk_score,
                    exit_code,
                    duration_ms,
                ),
    {
        let elapsed = self.start_time.elapsed();
        let duration_ms = millis_u64(elapsed.as_millis());
        completion_events(self.run_id.as_str(), verdict, risk_score, exit_code, duration_ms)
    }

    /// The events that report a violation of the policy: a warning, and
    /// a metric that counts it.
    pub fn record_policy_violation(&self, violation_type: &str, details: &str) -> (r: Vec<LogEvent>)
        ensures
            events_view(r@) == occurrence_events_of(
                LogLevel::Warn,
                "Policy violation"@,
                "magicrune_policy_violations_total"@,
                self.run_id@,
                "violation_type"@,
                violation_type@,
                "details"@,
                details@,
            ),
    {
        occurrence_events(
            LogLevel::Warn,
            "Policy violation",
            "magicrune_policy_violations_total",
            self.run_id.as_str(),
            "violation_type",
            violation_type,
            "details",
            details,
        )
    }

    /// The events that report an error: the error, and a metric that
    /// counts it.
    pub fn record_error(&self, error_code: &str, message: &str) -> (r: Vec<LogEvent>)
        ensures
            events_view(r@) == occurrence_events_of(
                LogLevel::Error,
                "Execution error"@,
                "magicrune_errors_total"@,
                self.run_id@,
                "error_code"@,
                error_code@,
                "message"@,
                message@,
            ),
    {
        occurrence_events(
            LogLevel::Error,
            "Execution error",
            "magicrune_errors_total",
            self.run_id.as_str(),
            "error_code",
            error_code,
            "message",
            message,
        )
    }
}

/// The event that reports an operation of a sandbox: at the level of
/// debugging where it succeeded, a warning where it failed.
pub open spec fn sandbox_event_of(sandbox_type: Seq<char>, operation: Seq<char>, success: bool) -> EventModel {
    EventModel {
        level: if success {
            LogLevel::Debug
        } else {
            LogLevel::Warn
        },
        message: if success {
            "Sandbox operation succeeded"@
        } else {
            "Sandbox operation failed"@
        },
        fields: seq![("sandbox_type"@, sandbox_type), ("operation"@, operation)],
    }
}

/// The event that reports an operation of a sandbox.
pub fn log_sandbox_operation(sandbox_type: &str, operation: &str, success: bool) -> (e: LogEvent)
    ensures
        e@ == sandbox_event_of(sandbox_type@, operation@, success),
{
    let mut f: Vec<(String, String)> = Vec::new();
    f.push(kv("sandbox_type", sandbox_type));
    f.push(kv("operation", operation));
    assert(var_pairs(f@) =~= seq![("sandbox_type"@, sandbox_type@), ("operation"@, operation@)]);
    if success {
        LogEvent {
            level: LogLevel::Debug,
            message: "Sandbox operation succeeded".to_owned(),
            fields: f,
        }
    } else {
        LogEvent { level: LogLevel::Warn, message: "Sandbox operation failed".to_owned(), fields: f }
    }
}

/// The events that report an exchange with the broker: the exchange, at
/// the level of debugging where it succeeded and as a warning where it
/// failed, then a metric that counts it.
pub open spec fn jetstream_events_of(
    operation: Seq<char>,
    subject: Seq<char>,
    msg_id: Seq<char>,
    payload_size: usize,
    success: bool,
) -> Seq<EventModel> {
    seq![
        EventModel {
            level: if success {
                LogLevel::Debug
            } else {
                LogLevel::Warn
            },
            message: if success {
                "JetStream operation succeeded"@
            } else {
                "JetStream operation failed"@
            },
            fields: seq![
                ("operation"@, operation),
                ("subject"@, subject),
                ("msg_id"@, msg_id),
                ("payload_size"@, decimal(payload_size as nat)),
            ],
        },
        EventModel {
            level: LogLevel::Info,
            message: "metric"@,
            fields: seq![
                ("metric_name"@, "magicrune_jetstream_operations_total"@),
                ("value"@, decimal(1)),
                ("operation"@, operation),
                ("success"@, bool_text(success)),
            ],
        },
    ]
}

/// The events that report an exchange with the broker.
pub fn log_jetstream_operation(
    operation: &str,
    subject: &str,
    msg_id: &str,
    payload_size: usize,
    success: bool,
) -> (r: Vec<LogEvent>)
    ensures
        events_view(r@) == jetstream_events_of(
            operation@,
            subject@,
            msg_id@,
            payload_size,
            success,
        ),
{
    let mut f1: Vec<(String, String)> = Vec::new();
    f1.push(kv("operation", operation));
    f1.push(kv("subject", subject));
    f1.push(kv("msg_id", msg_id));
    f1.push(kv_number("payload_size", payload_size as u64));
    let mut f2: Vec<(String, String)> = Vec::new();
    f2.push(kv("metric_name", "magicrune_jetstream_operations_total"));
    f2.push(kv_number("value", 1));
    f2.push(kv("operation", operation));
    f2.push(kv_bool("success", success));
    let ghost want = jetstream_events_of(operation@, subject@, msg_id@, payload_size, success);
    assert(var_pairs(f1@) =~= want[0].fields);
    assert(var_pairs(f2@) =~= want[1].fields);
    let mut r: Vec<LogEvent> = Vec::new();
    if success {
        r.push(
            LogEvent {
                level: LogLevel::Debug,
                message: "JetStream operation succeeded".to_owned(),
                fields: f1,
            },
        );
    } else {
        r.push(
            LogEvent {
                level: LogLevel::Warn,
                message: "JetStream operation failed".to_owned(),
                fields: f1,
            },
        );
    }
    r.push(LogEvent { level: LogLevel::Info, message: "metric".to_owned(), fields: f2 });
    assert(events_view(r@) =~= want);
    r
}

} // verus!
