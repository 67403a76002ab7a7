use magicrune::dedupe::DedupeRing;
use magicrune::hash::{compute_msg_id, run_id};
use magicrune::runner::RunEnd;
use magicrune::schema::{PolicyDoc, SpellRequest, Verdict};
use magicrune::worker::{
    ack_subject, message_id, render_metrics_json, render_metrics_text, result_subject, Intake,
    Metrics, Worker, WorkerConfig,
};

fn request(cmd: &str) -> SpellRequest {
    SpellRequest {
        cmd: Some(cmd.to_string()),
        stdin: Some(String::new()),
        env: Some(vec![]),
        files: Some(vec![]),
        policy_id: Some("default".to_string()),
        timeout_sec: Some(5),
        allow_net: Some(vec![]),
        allow_fs: Some(vec![]),
        seed: None,
    }
}

#[test]
fn the_ring_forgets_its_eldest() {
    let mut ring = DedupeRing::new(2);
    assert_eq!(ring.max(), 2);
    assert!(!ring.observe("a"));
    assert!(!ring.observe("b"));
    assert!(ring.observe("a"));
    assert_eq!(ring.len(), 2);
    assert!(!ring.observe("c"));
    assert_eq!(ring.len(), 2);
    assert!(!ring.contains("a"));
    assert!(ring.contains("b"));
    assert!(ring.contains("c"));
    assert!(!ring.observe("a"));
    assert!(!ring.contains("b"));
}

#[test]
fn a_ring_without_room_remembers_nothing() {
    let mut ring = DedupeRing::new(0);
    assert!(!ring.observe("a"));
    assert!(!ring.observe("a"));
    assert_eq!(ring.len(), 0);
}

#[test]
fn a_second_delivery_within_capacity_is_a_duplicate() {
    let mut ring = DedupeRing::new(1024);
    assert!(!ring.observe("first"));
    for i in 0..1023 {
        assert!(!ring.observe(&format!("other-{}", i)));
    }
    assert!(ring.observe("first"));
    assert!(!ring.observe("one-more"));
    assert!(!ring.observe("first"));
}

#[test]
fn message_identifiers() {
    assert_eq!(message_id(Some("abc"), b"payload"), "abc");
    assert_eq!(message_id(None, b"payload"), compute_msg_id(b"payload"));
    assert_eq!(result_subject("r_1"), "run.res.r_1");
    assert_eq!(ack_subject("r_1"), "run.ack.r_1");
}

#[test]
fn scenario_dedupe() {
    let mut worker = Worker::new(&WorkerConfig::default());
    let policy = PolicyDoc::default();
    let req = request("echo hi");
    let payload = b"{\"cmd\":\"echo hi\"}";
    let first = worker.receive(Some("id-1"), payload, Some(&req), &policy);
    let ticket = match first {
        Intake::Run(t) => t,
        other => panic!("{:?}", other),
    };
    assert_eq!(ticket.run_id, run_id(payload, None));
    assert_eq!(ticket.risk_score, 0);
    assert_eq!(ticket.verdict, Verdict::Green);
    let p = worker.complete(&ticket, RunEnd::Exited(0), 3);
    assert!(p.ack);
    assert_eq!(p.subject, format!("run.res.{}", ticket.run_id));
    assert_eq!(p.ack_subject, format!("run.ack.{}", ticket.run_id));
    assert_eq!(p.result.verdict, "green");
    assert_eq!(p.result.exit_code, 0);
    let second = worker.receive(Some("id-1"), payload, Some(&req), &policy);
    assert!(matches!(second, Intake::Duplicate));
    assert_eq!(worker.metrics.processed_total, 2);
    assert_eq!(worker.metrics.dupe_total, 1);
    assert_eq!(worker.metrics.red_total, 0);
}

#[test]
fn messages_without_a_header_are_told_apart_by_their_payload() {
    let mut worker = Worker::new(&WorkerConfig::default());
    let policy = PolicyDoc::default();
    let req = request("echo hi");
    assert!(matches!(worker.receive(None, b"one", Some(&req), &policy), Intake::Run(_)));
    assert!(matches!(worker.receive(None, b"two", Some(&req), &policy), Intake::Run(_)));
    assert!(matches!(worker.receive(None, b"one", Some(&req), &policy), Intake::Duplicate));
}

#[test]
fn malformed_messages_are_dropped_and_remembered() {
    let mut worker = Worker::new(&WorkerConfig::default());
    let policy = PolicyDoc::default();
    assert!(matches!(worker.receive(Some("m"), b"{", None, &policy), Intake::Malformed));
    assert!(matches!(worker.receive(Some("m"), b"{", None, &policy), Intake::Duplicate));
    assert_eq!(worker.metrics.processed_total, 2);
    assert_eq!(worker.metrics.dupe_total, 1);
}

#[test]
fn network_intent_without_grant_is_refused_by_the_worker() {
    let mut worker = Worker::new(&WorkerConfig::default());
    let policy = PolicyDoc::default();
    let req = request("curl http://example.com");
    let payload = b"{\"cmd\":\"curl http://example.com\"}";
    match worker.receive(None, payload, Some(&req), &policy) {
        Intake::Refused(p) => {
            assert_eq!(p.result.verdict, "red");
            assert!(p.result.risk_score >= 61);
            assert_eq!(p.result.risk_score, 80);
            assert_eq!(p.result.exit_code, 20);
            assert_eq!(p.result.duration_ms, 0);
            assert_eq!(p.result.run_id, run_id(payload, None));
            assert_eq!(p.subject, format!("run.res.{}", p.result.run_id));
            assert!(p.ack);
        }
        other => panic!("{:?}", other),
    }
    assert_eq!(worker.metrics.red_total, 1);
}

#[test]
fn the_seed_of_the_request_enters_the_run_identifier() {
    let mut worker = Worker::new(&WorkerConfig::default());
    let policy = PolicyDoc::default();
    let mut req = request("echo hi");
    req.seed = Some(42);
    match worker.receive(None, b"x", Some(&req), &policy) {
        Intake::Run(t) => {
            assert_eq!(t.run_id, run_id(b"x", Some(42)));
            assert_ne!(t.run_id, run_id(b"x", None));
        }
        other => panic!("{:?}", other),
    }
}

#[test]
fn scenario_redelivery() {
    let config = WorkerConfig { skip_ack_once: true, ..WorkerConfig::default() };
    let mut worker = Worker::new(&config);
    let policy = PolicyDoc::default();
    let req = request("echo hi");
    let ticket = match worker.receive(Some("a"), b"p", Some(&req), &policy) {
        Intake::Run(t) => t,
        other => panic!("{:?}", other),
    };
    let first = worker.complete(&ticket, RunEnd::Exited(0), 1);
    assert!(!first.ack);
    // the broker delivers the same run again under another identifier
    let again = match worker.receive(Some("b"), b"p", Some(&req), &policy) {
        Intake::Run(t) => t,
        other => panic!("{:?}", other),
    };
    assert_eq!(again.run_id, ticket.run_id);
    let second = worker.complete(&again, RunEnd::Exited(0), 1);
    assert!(second.ack);
    assert_eq!(first.result.run_id, second.result.run_id);
    assert_eq!(first.result.verdict, second.result.verdict);
    assert_eq!(first.result.exit_code, second.result.exit_code);
}

#[test]
fn timeouts_count_as_red() {
    let mut worker = Worker::new(&WorkerConfig::default());
    let policy = PolicyDoc::default();
    let req = request("sleep 30");
    let ticket = match worker.receive(None, b"p", Some(&req), &policy) {
        Intake::Run(t) => t,
        other => panic!("{:?}", other),
    };
    let p = worker.complete(&ticket, RunEnd::TimedOut, 2004);
    assert_eq!(p.result.verdict, "red");
    assert_eq!(p.result.exit_code, 20);
    assert_eq!(p.result.duration_ms, 2004);
    assert_eq!(worker.metrics.red_total, 1);
}

#[test]
fn metrics_are_due_every_so_many_messages() {
    let config = WorkerConfig { metrics_every: 2, ..WorkerConfig::default() };
    let mut worker = Worker::new(&config);
    let policy = PolicyDoc::default();
    assert!(worker.metrics_due());
    worker.receive(Some("1"), b"", None, &policy);
    assert!(!worker.metrics_due());
    worker.receive(Some("2"), b"", None, &policy);
    assert!(worker.metrics_due());
    let config = WorkerConfig { metrics_every: 0, ..WorkerConfig::default() };
    let worker = Worker::new(&config);
    assert!(!worker.metrics_due());
}

#[test]
fn metrics_renditions() {
    let m = Metrics { processed_total: 12, dupe_total: 3, red_total: 0 };
    assert_eq!(
        render_metrics_text(&m),
        "# magicrune metrics\nmagicrune_processed_total 12\nmagicrune_dupe_total 3\nmagicrune_red_total 0\n"
    );
    assert_eq!(
        render_metrics_json(&m),
        "{\"processed_total\":12,\"dupe_total\":3,\"red_total\":0}"
    );
    let m = Metrics { processed_total: u64::MAX, dupe_total: 10, red_total: 100 };
    assert_eq!(
        render_metrics_json(&m),
        "{\"processed_total\":18446744073709551615,\"dupe_total\":10,\"red_total\":100}"
    );
}

#[test]
fn worker_defaults() {
    let c = WorkerConfig::default();
    assert_eq!(c.dedupe_max, 1024);
    assert_eq!(c.metrics_every, 100);
    assert!(!c.skip_ack_once);
    assert_eq!(c.dup_window_sec, 120);
    assert_eq!(c.max_ack_pending, 2048);
    assert_eq!(c.ack_wait_sec, 30);
    assert_eq!(c.ack_ack_wait_sec, 2);
}

#[test]
fn what_happens_right_away() {
    let mut worker = Worker::new(&WorkerConfig::default());
    let policy = PolicyDoc::default();
    let run = worker.receive(Some("1"), b"a", Some(&request("echo hi")), &policy);
    assert!(!run.acknowledge());
    assert!(run.publication().is_none());
    let dup = worker.receive(Some("1"), b"a", Some(&request("echo hi")), &policy);
    assert!(dup.acknowledge());
    assert!(dup.publication().is_none());
    let bad = worker.receive(Some("2"), b"{", None, &policy);
    assert!(bad.acknowledge());
    assert!(bad.publication().is_none());
    let refused = worker.receive(Some("3"), b"c", Some(&request("curl http://x")), &policy);
    assert!(refused.acknowledge());
    assert_eq!(refused.publication().unwrap().result.verdict, "red");
}
