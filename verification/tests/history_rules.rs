use heartbeat_control_center::history::{ActivityEvent, BeatKind, BeatRecord, HistoryStore, ACTIVITY_CAP, RING_CAP};

fn rec(ts: u64, kind: BeatKind, latency: Option<u32>) -> BeatRecord {
    BeatRecord { ts, kind, http_status: None, latency_ms: latency, note: None }
}

fn event(ts: u64, text: String) -> ActivityEvent {
    ActivityEvent { ts, level: "info".into(), agent_id: None, agent_name: None, text }
}

#[test]
fn ring_caps_at_limit() {
    let mut h = HistoryStore::default();
    for i in 0..(RING_CAP + 50) {
        h.push_beat("a", rec(i as u64, BeatKind::OnlineOk, Some(10)));
    }
    let ring = h.beats.get("a").unwrap();
    assert_eq!(ring.len(), RING_CAP);
    // Oldest entries were evicted.
    assert_eq!(ring.front().unwrap().ts, 50);
}

#[test]
fn activity_caps_at_limit() {
    let mut h = HistoryStore::default();
    for i in 0..(ACTIVITY_CAP + 10) {
        h.push_activity(event(i as u64, format!("e{i}")));
    }
    assert_eq!(h.activity.len(), ACTIVITY_CAP);
    let recent = h.recent_activity(5);
    assert_eq!(recent[0].text, format!("e{}", ACTIVITY_CAP + 9));
}

#[test]
fn stats_window_math() {
    let mut h = HistoryStore::default();
    let now = 100_000u64;
    // Inside window: 3 ok (latencies 100/200/300) + 1 network error.
    h.push_beat("a", rec(now - 100, BeatKind::OnlineOk, Some(100)));
    h.push_beat("a", rec(now - 200, BeatKind::OnlineOk, Some(200)));
    h.push_beat("a", rec(now - 300, BeatKind::OfflineOk, Some(300)));
    h.push_beat("a", rec(now - 400, BeatKind::ErrNetwork, None));
    // Outside window.
    h.push_beat("a", rec(now - 10_000, BeatKind::ErrServer, Some(999)));
    let s = h.beat_counts("a", now, 1_000);
    assert_eq!(s.total, 4);
    assert_eq!(s.ok, 3);
    assert_eq!(s.avg_latency_ms, 200);
    // Empty agent → zeros, no division by zero.
    let empty = h.beat_counts("nope", now, 1_000);
    assert_eq!(empty.total, 0);
    assert_eq!(empty.ok, 0);
    assert_eq!(empty.avg_latency_ms, 0);
}

#[test]
fn local_fail_offline_counts_as_success() {
    // The beat DELIVERY succeeded (honest offline) even though the local
    // check failed: the success rate measures delivery, not agent health.
    assert!(BeatKind::LocalFailOffline.is_success());
    assert!(!BeatKind::ErrNetwork.is_success());
}

#[test]
fn rings_are_per_agent() {
    let mut h = HistoryStore::default();
    h.push_beat("a", rec(1, BeatKind::OnlineOk, Some(5)));
    h.push_beat("b", rec(2, BeatKind::ErrServer, None));
    h.push_beat("a", rec(3, BeatKind::OfflineOk, Some(7)));
    let a = h.beats_for("a");
    assert_eq!(a.len(), 2);
    assert_eq!(a[0].ts, 1);
    assert_eq!(a[1].ts, 3);
    assert_eq!(h.beats_for("b").len(), 1);
    assert!(h.beats_for("c").is_empty());
    h.remove_agent("a");
    assert!(h.beats_for("a").is_empty());
    assert_eq!(h.beats_for("b").len(), 1);
}

#[test]
fn recent_activity_is_newest_first_and_bounded() {
    let mut h = HistoryStore::default();
    for i in 0..3u64 {
        h.push_activity(event(i, format!("e{i}")));
    }
    let all = h.recent_activity(10);
    assert_eq!(all.len(), 3);
    assert_eq!(all[0].text, "e2");
    assert_eq!(all[2].text, "e0");
    assert!(h.recent_activity(0).is_empty());
}

#[test]
fn window_reaching_before_time_zero_counts_everything() {
    let mut h = HistoryStore::default();
    h.push_beat("a", rec(0, BeatKind::OnlineOk, None));
    h.push_beat("a", rec(5, BeatKind::ErrDecode, None));
    let s = h.beat_counts("a", 10, 1_000);
    assert_eq!(s.total, 2);
    assert_eq!(s.ok, 1);
    assert_eq!(s.avg_latency_ms, 0);
}
