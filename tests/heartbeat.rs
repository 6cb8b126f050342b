use snekcloud::heartbeat::{
    next_probe_action, unix_now_ms, DeliveryOutcome, HeartbeatHistory, HeartbeatPayload,
    HeartbeatSettings, NodeInfo, NodeState, ProbeAction,
};
use snekcloud::timestamp::{format_timestamp, Timestamp};

fn at(second: u32) -> Timestamp {
    Timestamp { year: 2020, month: 1, day: 2, hour: 3, minute: 4, second }
}

fn pings(history: &HeartbeatHistory, id: &str) -> Vec<Option<u64>> {
    history
        .peers()
        .iter()
        .find(|p| p.id == id)
        .map(|p| p.records.iter().map(|r| r.ping).collect())
        .unwrap_or_default()
}

#[test]
fn timestamp_format() {
    assert_eq!(format_timestamp(&at(5)), "2020-01-02T03:04:05");
    let t = Timestamp { year: 7, month: 12, day: 31, hour: 23, minute: 59, second: 59 };
    assert_eq!(format_timestamp(&t), "0007-12-31T23:59:59");
}

#[test]
fn timestamp_format_signed_years() {
    let t = Timestamp { year: 12345, month: 1, day: 1, hour: 0, minute: 0, second: 0 };
    assert_eq!(format_timestamp(&t), "+12345-01-01T00:00:00");
    let t = Timestamp { year: -1, month: 1, day: 1, hour: 0, minute: 0, second: 0 };
    assert_eq!(format_timestamp(&t), "-0001-01-01T00:00:00");
}

#[test]
fn node_info_constructors() {
    let a = NodeInfo::alive_at(12, &at(1));
    assert_eq!(a.ping, Some(12));
    assert_eq!(a.state, NodeState::Alive);
    assert_eq!(a.timestamp, "2020-01-02T03:04:01");
    let d = NodeInfo::dead_at(&at(2));
    assert_eq!(d.ping, None);
    assert_eq!(d.state, NodeState::Dead);
}

#[test]
fn eviction_keeps_last_records_in_order() {
    let mut history = HeartbeatHistory::new(3);
    for ping in 0..5u64 {
        history.insert_state("peer".to_string(), NodeInfo::alive_at(ping, &at(0)));
    }
    assert_eq!(pings(&history, "peer"), vec![Some(2), Some(3), Some(4)]);
}

#[test]
fn eviction_default_cap() {
    let mut history = HeartbeatHistory::new(HeartbeatSettings::default().max_record_history);
    for ping in 0..13u64 {
        history.insert_state("peer".to_string(), NodeInfo::alive_at(ping, &at(0)));
    }
    let expected: Vec<Option<u64>> = (3..13u64).map(Some).collect();
    assert_eq!(pings(&history, "peer"), expected);
}

#[test]
fn histories_are_per_peer() {
    let mut history = HeartbeatHistory::new(2);
    history.insert_state("a".to_string(), NodeInfo::alive_at(1, &at(0)));
    history.insert_state("b".to_string(), NodeInfo::dead_at(&at(0)));
    history.insert_state("a".to_string(), NodeInfo::alive_at(2, &at(0)));
    assert_eq!(pings(&history, "a"), vec![Some(1), Some(2)]);
    assert_eq!(pings(&history, "b"), vec![None]);
    assert_eq!(history.peers().len(), 2);
}

#[test]
fn beat_records_sender_alive_with_latency() {
    let mut history = HeartbeatHistory::new(10);
    let payload = HeartbeatPayload::at("sender".to_string(), 1_000);
    history.record_beat(&payload, 1_042, &at(9));
    assert_eq!(pings(&history, "sender"), vec![Some(42)]);
    let record = &history.peers()[0].records[0];
    assert_eq!(record.state, NodeState::Alive);
    assert_eq!(record.timestamp, "2020-01-02T03:04:09");
}

#[test]
fn beat_from_the_future_has_zero_latency() {
    let payload = HeartbeatPayload::at("n".to_string(), 5_000);
    assert_eq!(payload.latency_ms(4_000), 0);
    assert_eq!(payload.latency_ms(5_250), 250);
    assert_eq!(payload.get_beat_time(), 5_000);
}

#[test]
fn payload_now_is_recent() {
    let before = unix_now_ms();
    let payload = HeartbeatPayload::now("me".to_string());
    let after = unix_now_ms();
    assert_eq!(payload.node_id, "me");
    assert!(before <= payload.get_beat_time() && payload.get_beat_time() <= after);
    assert!(before > 1_500_000_000_000);
}

#[test]
fn failed_delivery_records_dead() {
    let mut history = HeartbeatHistory::new(10);
    history.record_outcome("t".to_string(), DeliveryOutcome::Delivered, &at(1));
    assert!(history.peers().is_empty());
    history.record_outcome("t".to_string(), DeliveryOutcome::Failed, &at(2));
    history.record_outcome("t".to_string(), DeliveryOutcome::TimedOut, &at(3));
    let records = &history.peers()[0].records;
    assert_eq!(records.len(), 2);
    assert!(records.iter().all(|r| r.state == NodeState::Dead && r.ping.is_none()));
    assert_eq!(records[1].timestamp, "2020-01-02T03:04:03");
}

#[test]
fn probe_pacing() {
    assert_eq!(next_probe_action(true, true, 0, 50), ProbeAction::SleepInterval);
    assert_eq!(next_probe_action(true, false, 0, 50), ProbeAction::SleepBackoff);
    assert_eq!(next_probe_action(false, false, 10_000, 1_000), ProbeAction::SleepBackoff);
    assert_eq!(next_probe_action(false, true, 10_000, 50), ProbeAction::SendBeat);
    assert_eq!(next_probe_action(false, false, 5_001, 50), ProbeAction::SendBeat);
    assert_eq!(next_probe_action(false, false, 5_000, 50), ProbeAction::SleepBackoff);
    assert_eq!(next_probe_action(false, false, u64::MAX, u64::MAX), ProbeAction::SleepBackoff);
}

#[test]
fn heartbeat_settings_defaults() {
    let s = HeartbeatSettings::default();
    assert_eq!(s.interval_ms, 10_000);
    assert_eq!(s.max_record_history, 10);
    assert!(s.output_file.is_none());
    assert_eq!(s.interval().as_millis(), 10_000);
}
