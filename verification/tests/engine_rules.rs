use heartbeat_control_center::config::{
    clamp_interval, AgentConfig, AppConfig, MAX_INTERVAL_SECS, MIN_INTERVAL_SECS,
};
use heartbeat_control_center::engine::{
    failure_delay_secs, halt_for, in_jitter_window, rate_limit_delay_secs, retry_time_fits, Core, Halt, HaltKind, TraySeverity,
    MAX_CONCURRENT_BEATS, MAX_LAUNCH_PER_TICK,
};
use heartbeat_control_center::errors::ApiError;
use heartbeat_control_center::history::{BeatKind, HistoryStore};

fn agent(id: &str, in_service: bool) -> AgentConfig {
    AgentConfig {
        id: id.into(),
        name: format!("Agent {id}"),
        fingerprint: "tk_0000…ffff".into(),
        in_service,
        interval_secs: 300,
        local_check: None,
        added_at: 0,
    }
}

fn core_with(agents: Vec<AgentConfig>) -> Core {
    let cfg = AppConfig {
        agents,
        ..AppConfig::default()
    };
    Core::new(cfg, HistoryStore::default())
}

fn network(message: &str) -> ApiError {
    ApiError::Network { message: message.into() }
}

#[test]
fn interval_clamping() {
    assert_eq!(clamp_interval(10), MIN_INTERVAL_SECS);
    assert_eq!(clamp_interval(300), 300);
    assert_eq!(clamp_interval(100_000), MAX_INTERVAL_SECS);
}

#[test]
fn backoff_sequence_caps_at_interval() {
    assert_eq!(failure_delay_secs(1, 300), 30);
    assert_eq!(failure_delay_secs(2, 300), 60);
    assert_eq!(failure_delay_secs(3, 300), 120);
    assert_eq!(failure_delay_secs(4, 300), 240);
    assert_eq!(failure_delay_secs(5, 300), 300); // capped
    assert_eq!(failure_delay_secs(30, 300), 300); // shift saturates safely
    // Sub-floor intervals clamp to the 300s minimum before capping.
    assert_eq!(failure_delay_secs(5, 60), 300);
}

#[test]
fn rate_limit_delay_honors_header_with_floor() {
    assert_eq!(rate_limit_delay_secs(60), 70);
    assert_eq!(rate_limit_delay_secs(120), 125);
    assert_eq!(rate_limit_delay_secs(0), 70);
}

#[test]
fn halt_mapping_matches_platform_messages() {
    let cases = [
        ("Your agent has been revoked", HaltKind::Revoked),
        ("Your agent is archived", HaltKind::Archived),
        ("Your agent is auto-disabled", HaltKind::AutoDisabled),
        ("Invalid API key", HaltKind::TokenInvalid),
    ];
    for (msg, expected) in cases {
        let halt = halt_for(&ApiError::Unauthorized { message: msg.into() }).unwrap();
        assert_eq!(halt.kind, expected, "for message {msg:?}");
    }
    let mismatch = halt_for(&ApiError::Forbidden {
        message: "Unauthorized — your API key does not match the requested agent".into(),
    })
    .unwrap();
    assert_eq!(mismatch.kind, HaltKind::TokenMismatch);
    let disabled = halt_for(&ApiError::Forbidden { message: "Agent is auto-disabled".into() }).unwrap();
    assert_eq!(disabled.kind, HaltKind::AutoDisabled);
    assert_eq!(
        halt_for(&ApiError::NotFound { message: "x".into() }).unwrap().kind,
        HaltKind::NotFound
    );
    assert_eq!(
        halt_for(&ApiError::Conflict { message: "Agent is no longer available".into() })
            .unwrap()
            .kind,
        HaltKind::Unavailable
    );
    assert!(halt_for(&ApiError::Network { message: "x".into() }).is_none());
    assert!(halt_for(&ApiError::RateLimited { retry_after_secs: 60 }).is_none());
    assert!(halt_for(&ApiError::Server { status: 500, message: "x".into() }).is_none());
}

#[test]
fn due_jobs_respects_gates() {
    let mut core = core_with(vec![agent("a", true), agent("b", true), agent("c", false)]);
    // All runtimes start at next_beat_at = 0 → due immediately.
    let jobs = core.due_jobs(100);
    // Launch cap = 2 per tick; agent c is out of service.
    assert_eq!(jobs.len(), 2);
    assert!(core.runtime.get("a").unwrap().in_flight);
    assert!(core.runtime.get("b").unwrap().in_flight);
    // Nothing more while both are in flight.
    assert!(core.due_jobs(101).is_empty());
}

#[test]
fn due_jobs_skips_paused_and_halted() {
    let mut core = core_with(vec![agent("a", true), agent("b", true)]);
    core.set_paused(true, 1);
    assert!(core.due_jobs(100).is_empty());
    core.set_paused(false, 2);
    core.ensure_runtime("a").halted = Some(Halt {
        kind: HaltKind::TokenInvalid,
        message: "Invalid API key".into(),
    });
    let jobs = core.due_jobs(100);
    assert_eq!(jobs.len(), 1);
    assert_eq!(jobs[0].agent_id, "b");
}

#[test]
fn success_resets_failures_and_schedules_next() {
    let mut core = core_with(vec![agent("a", true)]);
    core.due_jobs(1_000);
    core.apply_error("a", &network("down"), 1_000);
    assert_eq!(core.runtime.get("a").unwrap().consecutive_failures, 1);
    core.due_jobs(1_030); // due again after 30s backoff
    // The midpoint jitter of a 300 s interval is exactly 300 s.
    core.apply_success("a", BeatKind::OnlineOk, "online".into(), None, 120, None, 1_030, 300);
    let rt = core.runtime.get("a").unwrap();
    assert_eq!(rt.consecutive_failures, 0);
    assert_eq!(rt.platform_status.as_deref(), Some("online"));
    assert_eq!(rt.next_beat_at, 1_030 + 300);
    assert!(!rt.in_flight);
    // History recorded both attempts.
    assert_eq!(core.history.beats_for("a").len(), 2);
}

#[test]
fn network_error_backs_off_then_halts_on_auth() {
    let mut core = core_with(vec![agent("a", true)]);
    core.due_jobs(1_000);
    let n1 = core.apply_error("a", &network("down"), 1_000);
    assert!(n1.is_none());
    assert_eq!(core.runtime.get("a").unwrap().next_beat_at, 1_030);
    core.due_jobs(1_030);
    let n2 = core.apply_error("a", &network("down"), 1_030);
    assert!(n2.is_none());
    assert_eq!(core.runtime.get("a").unwrap().next_beat_at, 1_030 + 60);
    core.due_jobs(1_090);
    // Third consecutive failure raises a notification.
    let n3 = core.apply_error("a", &network("down"), 1_090);
    assert!(n3.is_some());
    // Now an auth failure halts outright.
    core.clear_halt("a", 1_100); // no-op halt clear to reset failures
    core.due_jobs(1_100);
    let n4 = core.apply_error("a", &ApiError::Unauthorized { message: "Invalid API key".into() }, 1_100);
    assert!(n4.is_some());
    let rt = core.runtime.get("a").unwrap();
    assert_eq!(rt.halted.as_ref().unwrap().kind, HaltKind::TokenInvalid);
    assert_eq!(rt.next_beat_at, u64::MAX);
    // Halted agents never come due again.
    assert!(core.due_jobs(u64::MAX - 1).is_empty());
}

#[test]
fn rate_limited_uses_retry_after() {
    let mut core = core_with(vec![agent("a", true)]);
    core.due_jobs(2_000);
    core.apply_error("a", &ApiError::RateLimited { retry_after_secs: 42 }, 2_000);
    let rt = core.runtime.get("a").unwrap();
    // max(42+5, 70) = 70
    assert_eq!(rt.next_beat_at, 2_070);
    assert!(rt.halted.is_none());
}

#[test]
fn tray_severity_ladder() {
    let mut core = core_with(vec![agent("a", true), agent("b", true)]);
    assert_eq!(core.tray_severity(), TraySeverity::Healthy);
    core.ensure_runtime("a").consecutive_failures = 1;
    assert_eq!(core.tray_severity(), TraySeverity::Degraded);
    core.ensure_runtime("b").halted = Some(Halt {
        kind: HaltKind::Revoked,
        message: "revoked".into(),
    });
    assert_eq!(core.tray_severity(), TraySeverity::Halted);
    core.set_paused(true, 1);
    assert_eq!(core.tray_severity(), TraySeverity::Paused);
    // No agents in service → paused-gray too.
    let mut idle_core = core_with(vec![agent("x", false)]);
    assert_eq!(idle_core.tray_severity(), TraySeverity::Paused);
    idle_core.config.agents.clear();
    assert_eq!(idle_core.tray_severity(), TraySeverity::Paused);
}

#[test]
fn local_fail_marks_flag_and_recovers() {
    let mut core = core_with(vec![agent("a", true)]);
    core.due_jobs(3_000);
    core.apply_success(
        "a",
        BeatKind::LocalFailOffline,
        "offline".into(),
        None,
        80,
        Some("HTTP 503 outside expected 200–399".into()),
        3_000,
        300,
    );
    assert!(core.runtime.get("a").unwrap().local_check_failing);
    core.due_jobs(3_300);
    core.apply_success("a", BeatKind::OnlineOk, "online".into(), None, 60, None, 3_300, 300);
    assert!(!core.runtime.get("a").unwrap().local_check_failing);
}

#[test]
fn launch_limits_hold_on_a_large_fleet() {
    let agents: Vec<AgentConfig> = (0..10).map(|i| agent(&format!("a{i}"), true)).collect();
    let mut core = core_with(agents);
    let first = core.due_jobs(10);
    assert_eq!(first.len(), MAX_LAUNCH_PER_TICK as usize);
    assert_eq!(first[0].agent_id, "a0");
    assert_eq!(first[1].agent_id, "a1");
    let second = core.due_jobs(11);
    assert_eq!(second.len(), 2);
    assert_eq!(second[0].agent_id, "a2");
    // Four in flight: nothing more launches.
    assert!(core.due_jobs(12).is_empty());
    let in_flight = (0..10).filter(|i| core.runtime.get(&format!("a{i}")).unwrap().in_flight).count();
    assert_eq!(in_flight, MAX_CONCURRENT_BEATS as usize);
}

#[test]
fn earliest_due_launches_first() {
    let mut core = core_with(vec![agent("a", true), agent("b", true), agent("c", true)]);
    core.ensure_runtime("a").next_beat_at = 50;
    core.ensure_runtime("b").next_beat_at = 20;
    core.ensure_runtime("c").next_beat_at = 200;
    let jobs = core.due_jobs(100);
    assert_eq!(jobs.len(), 2);
    assert_eq!(jobs[0].agent_id, "b");
    assert_eq!(jobs[1].agent_id, "a");
    assert_eq!(jobs[0].interval_secs, 300);
    assert!(jobs[0].explicit_status.is_none());
}

#[test]
fn backoff_keeps_growing_to_the_cap() {
    let mut prev = 0;
    for f in 1..12 {
        let d = failure_delay_secs(f, 840);
        assert!(d >= prev);
        assert!(d <= 840);
        prev = d;
    }
    assert_eq!(failure_delay_secs(0, 840), 30);
    assert_eq!(failure_delay_secs(6, 840), 840);
    assert_eq!(failure_delay_secs(5, 840), 480);
}

#[test]
fn retry_time_must_fit_the_clock() {
    assert!(retry_time_fits(&network("x"), 1_000, 1, 300));
    assert!(!retry_time_fits(&network("x"), u64::MAX - 10, 1, 300));
    // The first retry waits 30 s, so 100 s of headroom is enough.
    assert!(retry_time_fits(&network("x"), u64::MAX - 100, 1, 300));
    assert!(!retry_time_fits(&network("x"), u64::MAX - 100, 3, 300));
    assert!(retry_time_fits(&ApiError::Unauthorized { message: "x".into() }, u64::MAX - 10, 1, 300));
    assert!(!retry_time_fits(&ApiError::RateLimited { retry_after_secs: u64::MAX }, 0, 1, 300));
    let mut core = core_with(vec![agent("a", true)]);
    assert!(core.retry_fits_now("a", &network("x"), u64::MAX - 100));
    core.apply_error("a", &network("down"), u64::MAX - 100);
    assert_eq!(core.runtime.get("a").unwrap().next_beat_at, u64::MAX - 70);
    // The second failure waits 60 s.
    assert!(core.retry_fits_now("a", &network("x"), u64::MAX - 60));
    assert!(!core.retry_fits_now("a", &network("x"), u64::MAX - 50));
}

#[test]
fn halt_notification_names_the_agent() {
    let mut core = core_with(vec![agent("a", true)]);
    core.due_jobs(10);
    let n = core.apply_error(
        "a",
        &ApiError::Forbidden { message: "Agent is auto-disabled".into() },
        10,
    );
    assert_eq!(n.as_deref(), Some("Agent a halted: Agent is auto-disabled"));
    let rt = core.runtime.get("a").unwrap();
    assert_eq!(rt.halted.as_ref().unwrap().kind, HaltKind::AutoDisabled);
    assert!(!rt.in_flight);
    assert_eq!(core.tray_severity(), TraySeverity::Halted);
}

#[test]
fn next_beat_stays_within_ten_percent() {
    assert!(in_jitter_window(300, 270));
    assert!(in_jitter_window(300, 330));
    assert!(!in_jitter_window(300, 269));
    assert!(!in_jitter_window(300, 331));
    // Out-of-range intervals are clamped first: 10 → 300, 10_000 → 840.
    assert!(in_jitter_window(10, 300));
    assert!(in_jitter_window(10_000, 924));
    assert!(!in_jitter_window(10_000, 925));
    // Bounds round outward: 305 s gives 274..=336.
    assert!(in_jitter_window(305, 274));
    assert!(in_jitter_window(305, 336));
    assert!(!in_jitter_window(305, 337));
}
