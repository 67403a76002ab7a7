use magicrune::observability::{
    completion_events, log_jetstream_operation, log_sandbox_operation, ExecutionContext, LogLevel,
};

fn pairs(v: &[(String, String)]) -> Vec<(&str, &str)> {
    v.iter().map(|(k, v)| (k.as_str(), v.as_str())).collect()
}

#[test]
fn context_and_span() {
    let ctx = ExecutionContext::new("r_1".to_string(), "default".to_string());
    assert_eq!(ctx.run_id, "r_1");
    assert_eq!(ctx.policy_id, "default");
    let span = ctx.span();
    assert_eq!(span.name, "exec");
    assert_eq!(
        pairs(&span.fields),
        vec![("run_id", "r_1"), ("policy_id", "default"), ("otel.kind", "server")]
    );
}

#[test]
fn completion() {
    let events = completion_events("r_1", "green", 12, -3, 250);
    assert_eq!(events.len(), 3);
    assert_eq!(events[0].level, LogLevel::Info);
    assert_eq!(events[0].message, "Execution completed");
    assert_eq!(
        pairs(&events[0].fields),
        vec![
            ("run_id", "r_1"),
            ("verdict", "green"),
            ("risk_score", "12"),
            ("exit_code", "-3"),
            ("duration_ms", "250"),
        ]
    );
    assert_eq!(events[1].message, "metric");
    assert_eq!(
        pairs(&events[1].fields),
        vec![
            ("metric_name", "magicrune_execution_duration_ms"),
            ("value", "250"),
            ("run_id", "r_1"),
            ("verdict", "green"),
        ]
    );
    assert_eq!(
        pairs(&events[2].fields),
        vec![
            ("metric_name", "magicrune_risk_score"),
            ("value", "12"),
            ("run_id", "r_1"),
            ("verdict", "green"),
        ]
    );
    let events = completion_events("r", "red", 0, i32::MIN, 0);
    assert_eq!(events[0].fields[3].1, "-2147483648");
    let ctx = ExecutionContext::new("r_2".to_string(), "p".to_string());
    let events = ctx.record_completion("yellow", 30, 10);
    assert_eq!(events.len(), 3);
    assert_eq!(events[0].fields[0].1, "r_2");
    assert_eq!(events[0].fields[3].1, "10");
}

#[test]
fn violations_and_errors() {
    let ctx = ExecutionContext::new("r_1".to_string(), "default".to_string());
    let events = ctx.record_policy_violation("net", "no allowlist");
    assert_eq!(events.len(), 2);
    assert_eq!(events[0].level, LogLevel::Warn);
    assert_eq!(events[0].message, "Policy violation");
    assert_eq!(
        pairs(&events[0].fields),
        vec![("run_id", "r_1"), ("violation_type", "net"), ("details", "no allowlist")]
    );
    assert_eq!(events[1].level, LogLevel::Info);
    assert_eq!(
        pairs(&events[1].fields),
        vec![
            ("metric_name", "magicrune_policy_violations_total"),
            ("value", "1"),
            ("run_id", "r_1"),
            ("violation_type", "net"),
        ]
    );
    let events = ctx.record_error("E4", "spawn failed");
    assert_eq!(events[0].level, LogLevel::Error);
    assert_eq!(events[0].message, "Execution error");
    assert_eq!(
        pairs(&events[0].fields),
        vec![("run_id", "r_1"), ("error_code", "E4"), ("message", "spawn failed")]
    );
    assert_eq!(events[1].fields[0].1, "magicrune_errors_total");
}

#[test]
fn operations() {
    let e = log_sandbox_operation("linux", "unshare", true);
    assert_eq!(e.level, LogLevel::Debug);
    assert_eq!(e.message, "Sandbox operation succeeded");
    assert_eq!(pairs(&e.fields), vec![("sandbox_type", "linux"), ("operation", "unshare")]);
    let e = log_sandbox_operation("linux", "unshare", false);
    assert_eq!(e.level, LogLevel::Warn);
    assert_eq!(e.message, "Sandbox operation failed");
    let events = log_jetstream_operation("publish", "run.res.r_1", "abc", 17, false);
    assert_eq!(events.len(), 2);
    assert_eq!(events[0].level, LogLevel::Warn);
    assert_eq!(events[0].message, "JetStream operation failed");
    assert_eq!(
        pairs(&events[0].fields),
        vec![
            ("operation", "publish"),
            ("subject", "run.res.r_1"),
            ("msg_id", "abc"),
            ("payload_size", "17"),
        ]
    );
    assert_eq!(
        pairs(&events[1].fields),
        vec![
            ("metric_name", "magicrune_jetstream_operations_total"),
            ("value", "1"),
            ("operation", "publish"),
            ("success", "false"),
        ]
    );
    let events = log_jetstream_operation("publish", "s", "abc", 0, true);
    assert_eq!(events[0].level, LogLevel::Debug);
    assert_eq!(events[0].message, "JetStream operation succeeded");
    assert_eq!(events[1].fields[3].1, "true");
}
