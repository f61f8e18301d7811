use messages_gateway::claim::{claim_due, claims_no_later_than};
use messages_gateway::config::NatsConfig;
use messages_gateway::dispatch::{DispatchWindow, MAX_IN_FLIGHT};
use messages_gateway::models::{EmailRequest, EmailRequestWithContent};
use messages_gateway::producer::{
    prepare_publish, publish_outcome, stream_settings, EmailPublishPayload, STREAM_MAX_AGE_SECS,
    STREAM_MAX_BYTES, STREAM_MAX_MESSAGES,
};
use messages_gateway::reconcile::{reconcile, settle, PublishOutcome};
use messages_gateway::scheduler::{after_batch, may_claim, summarize, BatchReport, NextStep, SchedulerStats};
use messages_gateway::status::EmailStatus;
use messages_gateway::time::Timestamp;

const NOW: Timestamp = Timestamp { secs: 1_700_000_000, nanos: 0 };

fn at(secs_from_now: i64) -> Timestamp {
    Timestamp { secs: NOW.secs + secs_from_now, nanos: 0 }
}

fn row(id: u128, scheduled_at: Option<Timestamp>, created_at: Timestamp) -> EmailRequest {
    EmailRequest {
        id,
        topic_id: String::new(),
        to_email: format!("user{}@example.com", id),
        content_id: 1,
        scheduled_at,
        status: EmailStatus::Created,
        error: None,
        created_at,
        updated_at: created_at,
    }
}

fn claimed_ids(rows: &[EmailRequest], positions: &[usize]) -> Vec<u128> {
    positions.iter().map(|&p| rows[p].id).collect()
}

#[test]
fn happy_path_claims_and_sends_all() {
    let mut rows = vec![row(1, None, at(-30)), row(2, None, at(-20)), row(3, None, at(-10))];
    let claimed = claim_due(&mut rows, 1000, NOW);
    assert_eq!(claimed_ids(&rows, &claimed), vec![1, 2, 3]);
    assert!(rows.iter().all(|r| r.status == EmailStatus::Processing && r.updated_at == NOW));

    let outcomes: Vec<(u128, PublishOutcome)> =
        rows.iter().map(|r| (r.id, PublishOutcome::Published(7))).collect();
    reconcile(&mut rows, &outcomes, at(1));
    assert!(rows.iter().all(|r| r.status == EmailStatus::Sent && r.error.is_none() && r.updated_at == at(1)));
}

#[test]
fn future_schedule_stays_created() {
    let mut rows = vec![row(1, Some(at(3600)), at(-100)), row(2, Some(at(-60)), at(-50))];
    let claimed = claim_due(&mut rows, 10, NOW);
    assert_eq!(claimed, vec![1]);
    assert_eq!(rows[0].status, EmailStatus::Created);
    assert_eq!(rows[1].status, EmailStatus::Processing);
}

#[test]
fn unscheduled_rows_are_claimed_first() {
    let mut rows = vec![
        row(30, Some(at(-60)), at(-300)),
        row(20, Some(at(-120)), at(-200)),
        row(10, None, at(-100)),
    ];
    let claimed = claim_due(&mut rows, 10, NOW);
    assert_eq!(claimed_ids(&rows, &claimed), vec![10, 20, 30]);
}

#[test]
fn ties_fall_back_to_creation_then_id() {
    let mut rows = vec![
        row(9, Some(at(-60)), at(-10)),
        row(8, Some(at(-60)), at(-10)),
        row(7, Some(at(-60)), at(-20)),
    ];
    let claimed = claim_due(&mut rows, 10, NOW);
    assert_eq!(claimed_ids(&rows, &claimed), vec![7, 8, 9]);
    assert!(claims_no_later_than(&rows[1], &rows[0]));
    assert!(!claims_no_later_than(&rows[0], &rows[1]));
}

#[test]
fn claim_is_bounded_by_batch_size_and_takes_the_earliest() {
    let mut rows: Vec<EmailRequest> = (0..8u128).map(|i| row(100 - i, None, at(i as i64))).collect();
    let claimed = claim_due(&mut rows, 3, NOW);
    assert_eq!(claimed_ids(&rows, &claimed), vec![100, 99, 98]);
    assert_eq!(rows.iter().filter(|r| r.status == EmailStatus::Processing).count(), 3);
}

#[test]
fn claim_with_zero_batch_takes_nothing() {
    let mut rows = vec![row(1, None, at(-1))];
    let claimed = claim_due(&mut rows, 0, NOW);
    assert!(claimed.is_empty());
    assert_eq!(rows[0].status, EmailStatus::Created);
}

#[test]
fn two_claimers_take_disjoint_batches() {
    let mut rows: Vec<EmailRequest> = (1..=10u128).map(|i| row(i, None, at(i as i64))).collect();
    let first = claim_due(&mut rows, 5, NOW);
    let second = claim_due(&mut rows, 5, NOW);
    let third = claim_due(&mut rows, 5, NOW);
    assert_eq!(first.len(), 5);
    assert_eq!(second.len(), 5);
    assert!(third.is_empty());
    for p in &first {
        assert!(!second.contains(p));
    }
    assert!(rows.iter().all(|r| r.status == EmailStatus::Processing));
}

#[test]
fn publish_failure_is_per_row() {
    let mut rows = vec![row(1, None, at(-2)), row(2, None, at(-1))];
    claim_due(&mut rows, 10, NOW);
    let outcomes = vec![
        (1, PublishOutcome::PublishFailed("nack from broker".to_string())),
        (2, PublishOutcome::Published(42)),
    ];
    reconcile(&mut rows, &outcomes, at(5));
    assert_eq!(rows[0].status, EmailStatus::Failed);
    assert_eq!(rows[0].error, Some("nack from broker".to_string()));
    assert_eq!(rows[1].status, EmailStatus::Sent);
    assert_eq!(rows[1].error, None);
}

#[test]
fn reconcile_skips_missing_and_unclaimed_rows() {
    let mut rows = vec![row(1, None, at(-2)), row(2, Some(at(100)), at(-1))];
    let outcomes = vec![(1, PublishOutcome::Published(1)), (99, PublishOutcome::Published(2))];
    reconcile(&mut rows, &outcomes, at(5));
    assert_eq!(rows[0].status, EmailStatus::Created);
    assert_eq!(rows[1].status, EmailStatus::Created);
}

#[test]
fn first_outcome_for_a_request_wins() {
    let mut rows = vec![row(1, None, at(-2))];
    claim_due(&mut rows, 1, NOW);
    let outcomes = vec![
        (1, PublishOutcome::PublishFailed("timeout".to_string())),
        (1, PublishOutcome::Published(3)),
    ];
    reconcile(&mut rows, &outcomes, at(5));
    assert_eq!(rows[0].status, EmailStatus::Failed);
    assert_eq!(rows[0].error, Some("timeout".to_string()));
}

#[test]
fn settle_maps_outcomes_to_terminal_states() {
    assert_eq!(settle(&PublishOutcome::Published(9)), (EmailStatus::Sent, None));
    assert_eq!(
        settle(&PublishOutcome::PublishFailed("bad".to_string())),
        (EmailStatus::Failed, Some("bad".to_string()))
    );
}

#[test]
fn window_never_exceeds_ten_in_flight() {
    let mut w = DispatchWindow::new(25);
    let mut peak = 0;
    let mut order = Vec::new();
    let mut step = 0;
    while !w.is_done() {
        while w.can_start() {
            order.push(w.start());
            peak = peak.max(w.in_flight());
        }
        // complete one or two per round
        w.finish();
        if step % 2 == 0 && w.in_flight() > 0 {
            w.finish();
        }
        step += 1;
    }
    assert_eq!(peak, MAX_IN_FLIGHT);
    assert_eq!(order, (0..25).collect::<Vec<usize>>());
}

#[test]
fn window_on_empty_batch_is_done() {
    let w = DispatchWindow::new(0);
    assert!(w.is_done());
    assert!(!w.can_start());
}

#[test]
fn full_batch_claims_again_partial_ends_tick() {
    assert_eq!(after_batch(5, 5, false), NextStep::ClaimAfterPause);
    assert_eq!(after_batch(4, 5, false), NextStep::EndTick);
    assert_eq!(after_batch(0, 0, false), NextStep::EndTick);
    assert_eq!(after_batch(5, 5, true), NextStep::EndTick);
    assert!(may_claim(false));
    assert!(!may_claim(true));
}

#[test]
fn summarize_counts_outcomes() {
    let outcomes = vec![
        (1, PublishOutcome::Published(1)),
        (2, PublishOutcome::PublishFailed("x".to_string())),
        (3, PublishOutcome::Published(2)),
    ];
    assert_eq!(summarize(&outcomes), BatchReport { published: 2, failed: 1 });
    assert_eq!(summarize(&Vec::new()), BatchReport { published: 0, failed: 0 });
}

#[test]
fn stats_from_grouped_rows() {
    let rows = vec![(0i16, Some(4i64)), (2, Some(10)), (3, None), (4, Some(1)), (9, Some(100)), (1, Some(2))];
    let stats = SchedulerStats::from_counts(&rows);
    assert_eq!(
        stats,
        SchedulerStats { created: 4, processing: 2, sent: 10, failed: 0, stopped: 1 }
    );
    assert_eq!(stats.total(), 17);
    assert_eq!(SchedulerStats::default().total(), 0);
}

fn claimed_request(content: Option<&str>, subject: Option<&str>) -> EmailRequestWithContent {
    EmailRequestWithContent {
        id: 0x0189_a5b1_2c3d_7e4f_8a9b_0c1d_2e3f_4a5b,
        topic_id: "news".to_string(),
        to_email: "reader@example.com".to_string(),
        content_id: 3,
        scheduled_at: None,
        status: EmailStatus::Processing,
        error: None,
        created_at: NOW,
        updated_at: NOW,
        subject: subject.map(|s| s.to_string()),
        content: content.map(|s| s.to_string()),
    }
}

#[test]
fn payload_carries_uuid_text_and_tracked_body() {
    let request = claimed_request(Some("Hi"), None);
    let payload = EmailPublishPayload::for_request(&request, "http://h");
    assert_eq!(payload.uuid, "0189a5b1-2c3d-7e4f-8a9b-0c1d2e3f4a5b");
    assert_eq!(payload.email, "reader@example.com");
    assert_eq!(payload.subject, "");
    assert_eq!(
        payload.body,
        "Hi<img src=\"http://h/v1/events/open?requestId=0189a5b1-2c3d-7e4f-8a9b-0c1d2e3f4a5b\" width=\"1\" height=\"1\" style=\"display:none;\" alt=\"\">"
    );
}

#[test]
fn payload_encodes_as_field_map() {
    let payload = EmailPublishPayload {
        uuid: "u".to_string(),
        email: "e@x.io".to_string(),
        subject: "S".to_string(),
        body: "B".to_string(),
    };
    let bytes = payload.encode().unwrap();
    let mut expected = vec![0x84, 0xa4];
    expected.extend_from_slice(b"uuid");
    expected.extend_from_slice(&[0xa1, b'u', 0xa5]);
    expected.extend_from_slice(b"email");
    expected.push(0xa6);
    expected.extend_from_slice(b"e@x.io");
    expected.push(0xa7);
    expected.extend_from_slice(b"subject");
    expected.extend_from_slice(&[0xa1, b'S', 0xa4]);
    expected.extend_from_slice(b"body");
    expected.extend_from_slice(&[0xa1, b'B']);
    assert_eq!(bytes, expected);
}

#[test]
fn longer_fields_get_wider_string_headers() {
    let body = "x".repeat(300);
    let payload = EmailPublishPayload {
        uuid: "u".repeat(40),
        email: String::new(),
        subject: String::new(),
        body: body.clone(),
    };
    let bytes = payload.encode().unwrap();
    let mut expected = vec![0x84, 0xa4];
    expected.extend_from_slice(b"uuid");
    expected.extend_from_slice(&[0xd9, 40]);
    expected.extend_from_slice("u".repeat(40).as_bytes());
    expected.push(0xa5);
    expected.extend_from_slice(b"email");
    expected.push(0xa0);
    expected.push(0xa7);
    expected.extend_from_slice(b"subject");
    expected.push(0xa0);
    expected.push(0xa4);
    expected.extend_from_slice(b"body");
    expected.extend_from_slice(&[0xda, 0x01, 0x2c]);
    expected.extend_from_slice(body.as_bytes());
    assert_eq!(bytes, expected);
}

#[test]
fn prepared_bytes_match_payload_encoding() {
    let request = claimed_request(Some("Body"), Some("Subject"));
    let bytes = prepare_publish(&request, "http://localhost:3000").unwrap();
    let expected = EmailPublishPayload::for_request(&request, "http://localhost:3000").encode().unwrap();
    assert_eq!(bytes, expected);
    assert_eq!(bytes[0], 0x84);
}

#[test]
fn publish_outcome_follows_the_ack() {
    assert!(matches!(publish_outcome(Ok(12)), PublishOutcome::Published(12)));
    match publish_outcome(Err("no responders".to_string())) {
        PublishOutcome::PublishFailed(reason) => assert_eq!(reason, "no responders"),
        other => panic!("unexpected {:?}", other),
    }
}

#[test]
fn stream_settings_use_configured_names_and_limits() {
    let config = NatsConfig {
        url: "nats://127.0.0.1:4222".to_string(),
        stream: "messages".to_string(),
        subject: "messages.email".to_string(),
    };
    let s = stream_settings(&config);
    assert_eq!(s.name, "messages");
    assert_eq!(s.subjects, vec!["messages.email".to_string()]);
    assert_eq!(s.max_age_secs, 24 * 60 * 60);
    assert_eq!(s.max_age_secs, STREAM_MAX_AGE_SECS);
    assert_eq!(s.max_messages, 1_000_000);
    assert_eq!(s.max_messages, STREAM_MAX_MESSAGES);
    assert_eq!(s.max_bytes, 1_000_000_000);
    assert_eq!(s.max_bytes, STREAM_MAX_BYTES);
}
