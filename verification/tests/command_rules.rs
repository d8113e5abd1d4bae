use heartbeat_control_center::api::{BeatSuccess, MeAgent};
use heartbeat_control_center::commands::{
    check_lockable, is_known_theme, parse_vault_mode, pasted_token, verify_failure, AgentSettingsPatch, CommandError,
    SettingsPatch,
};
use heartbeat_control_center::config::{AgentConfig, AppConfig, LocalCheck};
use heartbeat_control_center::cycle::{beat_plan, desired_status};
use heartbeat_control_center::engine::{Core, Halt, HaltKind, TraySeverity};
use heartbeat_control_center::errors::ApiError;
use heartbeat_control_center::history::{BeatKind, HistoryStore};
use heartbeat_control_center::snapshot::{next_beat_display, pause_menu_label, spark_points, tray_icon_file};
use heartbeat_control_center::vault::VaultMode;

fn agent(id: &str, in_service: bool) -> AgentConfig {
    AgentConfig {
        id: id.into(),
        name: format!("Agent {id}"),
        fingerprint: "tk_0000…ffff".into(),
        in_service,
        interval_secs: 300,
        local_check: None,
        added_at: 0,
    }
}

fn core_with(agents: Vec<AgentConfig>) -> Core {
    Core::new(AppConfig { agents, ..AppConfig::default() }, HistoryStore::default())
}

fn me(id: &str, name: &str) -> MeAgent {
    MeAgent {
        id: id.into(),
        name: name.into(),
        slug: None,
        status: "offline".into(),
        is_public: false,
        is_revoked: false,
        is_archived: false,
        last_heartbeat: None,
        created_at: None,
    }
}

fn msg_of(e: CommandError) -> String {
    match e {
        CommandError::Msg(m) => m,
        CommandError::Api(e) => format!("api:{}", e.label()),
        CommandError::Vault(v) => format!("vault:{v}"),
    }
}

fn success(status: &str) -> BeatSuccess {
    BeatSuccess { platform_status: status.into(), platform_last_heartbeat: None, latency_ms: 42 }
}

#[test]
fn vault_mode_names() {
    assert_eq!(parse_vault_mode("keyring").unwrap(), VaultMode::Keyring);
    assert_eq!(parse_vault_mode("passphrase").unwrap(), VaultMode::Passphrase);
    assert_eq!(msg_of(parse_vault_mode("usb").unwrap_err()), "Unknown vault mode");
}

#[test]
fn pasted_tokens_are_trimmed_and_checked() {
    let good = format!("tk_{}", "0123456789abcdef".repeat(4));
    assert_eq!(pasted_token(&format!("  {good}\n")).unwrap(), good);
    assert_eq!(
        msg_of(pasted_token("tk_nope").unwrap_err()),
        "That doesn't look like an agent token — expected tk_ followed by 64 hex characters"
    );
}

#[test]
fn rejected_tokens_get_a_plain_message() {
    let m = msg_of(verify_failure(ApiError::Unauthorized { message: "Invalid API key".into() }));
    assert_eq!(m, "Tragentics rejected this token — check that you copied the full tk_ token");
    let other = msg_of(verify_failure(ApiError::Network { message: "down".into() }));
    assert_eq!(other, "api:network");
    assert!(matches!(CommandError::Vault("x".into()), CommandError::Vault(_)));
}

#[test]
fn only_passphrase_vaults_lock_by_hand() {
    assert!(check_lockable(Some(VaultMode::Passphrase)).is_ok());
    assert_eq!(
        msg_of(check_lockable(Some(VaultMode::Keyring)).unwrap_err()),
        "Only passphrase vaults can be locked manually"
    );
    assert!(check_lockable(None).is_err());
}

#[test]
fn fleet_membership() {
    let mut core = core_with(vec![]);
    assert!(core.check_not_in_fleet(&me("a1", "Invoice Parser")).is_ok());
    core.add_to_fleet(me("a1", "Invoice Parser"), "tk_0123…cdef".into(), 50);
    assert_eq!(core.config.agents.len(), 1);
    assert_eq!(core.config.agents[0].interval_secs, 300);
    assert!(core.config.agents[0].in_service);
    assert_eq!(core.runtime.get("a1").unwrap().next_beat_at, 0);
    assert_eq!(
        msg_of(core.check_not_in_fleet(&me("a1", "Invoice Parser")).unwrap_err()),
        "Invoice Parser is already in your fleet"
    );
    let recent = core.history.recent_activity(1);
    assert_eq!(recent[0].text, "Invoice Parser added to the fleet — first beat on the way");
    core.remove_from_fleet("a1", 60);
    assert!(core.config.agents.is_empty());
    assert!(core.runtime.get("a1").is_none());
}

#[test]
fn service_toggle_and_unknown_agents() {
    let mut core = core_with(vec![agent("a", true)]);
    assert_eq!(msg_of(core.set_in_service("zz", false, 1).unwrap_err()), "Agent not found");
    assert_eq!(msg_of(core.beat_now("zz", 1).unwrap_err()), "Agent not found");
    core.ensure_runtime("a").halted = Some(Halt { kind: HaltKind::Revoked, message: "revoked".into() });
    core.set_in_service("a", false, 2).unwrap();
    assert!(!core.config.agents[0].in_service);
    core.set_in_service("a", true, 3).unwrap();
    assert!(core.config.agents[0].in_service);
    assert!(core.runtime.get("a").unwrap().halted.is_none());
}

#[test]
fn settings_patches() {
    let mut core = core_with(vec![agent("a", true)]);
    let bad_theme = SettingsPatch {
        base_url: None,
        theme: Some("neon".into()),
        minimize_to_tray: None,
        notify_on_problems: None,
        default_interval_secs: None,
    };
    assert_eq!(msg_of(core.update_settings(bad_theme, 1).unwrap_err()), "Unknown theme");
    let patch = SettingsPatch {
        base_url: Some("http://localhost:4571/".into()),
        theme: Some("dark".into()),
        minimize_to_tray: Some(false),
        notify_on_problems: None,
        default_interval_secs: Some(10),
    };
    core.update_settings(patch, 2).unwrap();
    assert_eq!(core.config.base_url, "http://localhost:4571");
    assert_eq!(core.config.theme, "dark");
    assert!(!core.config.minimize_to_tray);
    assert_eq!(core.config.default_interval_secs, 300);
    let bad_url = SettingsPatch {
        base_url: Some("http://example.com".into()),
        theme: None,
        minimize_to_tray: None,
        notify_on_problems: None,
        default_interval_secs: None,
    };
    assert_eq!(
        msg_of(core.update_settings(bad_url, 3).unwrap_err()),
        "Plain http:// is only allowed for localhost"
    );
    assert!(is_known_theme("light"));
    assert!(!is_known_theme("Light"));
}

#[test]
fn agent_patches_clamp_and_check_urls() {
    let mut core = core_with(vec![agent("a", true)]);
    core.update_agent("a", AgentSettingsPatch { interval_secs: Some(100_000), local_check: None })
        .unwrap();
    assert_eq!(core.config.agents[0].interval_secs, 840);
    let bad = LocalCheck { url: "ftp://me".into(), expect_min: 200, expect_max: 399, timeout_secs: 5 };
    assert_eq!(
        msg_of(core.update_agent("a", AgentSettingsPatch { interval_secs: None, local_check: Some(Some(bad)) })
            .unwrap_err()),
        "Local check URL must start with http:// or https://"
    );
    let good = LocalCheck { url: " HTTP://me/health ".into(), expect_min: 200, expect_max: 399, timeout_secs: 5 };
    core.update_agent("a", AgentSettingsPatch { interval_secs: None, local_check: Some(Some(good)) }).unwrap();
    assert!(core.config.agents[0].local_check.is_some());
    core.update_agent("a", AgentSettingsPatch { interval_secs: None, local_check: Some(None) }).unwrap();
    assert!(core.config.agents[0].local_check.is_none());
}

#[test]
fn offline_reports_are_recorded() {
    let mut core = core_with(vec![agent("a", true)]);
    core.record_offline_result("a", Ok(success("offline")), "Control Center shutting down", 1_000);
    let rt = core.runtime.get("a").unwrap();
    assert_eq!(rt.last_kind, Some(BeatKind::OfflineOk));
    assert_eq!(rt.next_beat_at, 1_300);
    assert_eq!(rt.last_note.as_deref(), Some("Control Center shutting down"));
    core.record_offline_result("a", Err(ApiError::Network { message: "down".into() }), "x", 1_001);
    let recent = core.history.recent_activity(1);
    assert_eq!(
        recent[0].text,
        "Agent a: offline report failed (down) — the platform will drift it idle→offline on its own"
    );
}

#[test]
fn beat_plans_follow_the_local_check() {
    assert_eq!(beat_plan(None), (BeatKind::OnlineOk, None));
    assert_eq!(beat_plan(Some(Ok(204))).0, BeatKind::OnlineOk);
    let (kind, note) = beat_plan(Some(Err("HTTP 503 outside expected 200–399".into())));
    assert_eq!(kind, BeatKind::LocalFailOffline);
    assert_eq!(note.as_deref(), Some("local check failed: HTTP 503 outside expected 200–399"));
    assert_eq!(desired_status(BeatKind::OnlineOk), "online");
    assert_eq!(desired_status(BeatKind::LocalFailOffline), "offline");
}

#[test]
fn first_local_failure_notifies_once() {
    let mut core = core_with(vec![agent("a", true)]);
    core.due_jobs(10);
    let note = Some("local check failed: could not connect".to_string());
    let n1 = core.finish_delivered_beat("a", BeatKind::LocalFailOffline, success("offline"), note.clone(), 10, 300);
    assert_eq!(n1.as_deref(), Some("Agent a failed its local health check — reported offline"));
    assert_eq!(
        core.history.recent_activity(1)[0].text,
        "Agent a: local check failed: could not connect — reported offline to Tragentics"
    );
    let n2 = core.finish_delivered_beat("a", BeatKind::LocalFailOffline, success("offline"), note, 310, 300);
    assert!(n2.is_none());
    let n3 = core.finish_delivered_beat("a", BeatKind::OnlineOk, success("online"), None, 610, 300);
    assert!(n3.is_none());
    assert!(!core.runtime.get("a").unwrap().local_check_failing);
    assert_eq!(core.history.beats_for("a").len(), 3);
}

#[test]
fn missing_token_releases_the_slot() {
    let mut core = core_with(vec![agent("a", true)]);
    core.due_jobs(100);
    assert!(core.runtime.get("a").unwrap().in_flight);
    core.release_without_token("a", 100);
    let rt = core.runtime.get("a").unwrap();
    assert!(!rt.in_flight);
    assert_eq!(rt.next_beat_at, 160);
    assert_eq!(
        core.history.recent_activity(1)[0].text,
        "Agent a: token unavailable (vault locked?) — retrying in 60s"
    );
}

#[test]
fn shutdown_reports_in_service_agents() {
    let core = core_with(vec![agent("a", true), agent("b", false), agent("c", true)]);
    assert_eq!(core.in_service_ids(), vec!["a".to_string(), "c".to_string()]);
}

#[test]
fn snapshot_helpers() {
    let mut core = core_with(vec![agent("a", true), agent("b", true), agent("c", false)]);
    assert_eq!(core.tray_tooltip(), "Tragentics HCC — 2 in service");
    core.ensure_runtime("b").halted = Some(Halt { kind: HaltKind::Revoked, message: "r".into() });
    assert_eq!(core.tray_tooltip(), "Tragentics HCC — 2 in service, 1 halted");
    core.set_paused(true, 1);
    assert_eq!(core.tray_tooltip(), "Tragentics HCC — paused");
    assert_eq!(pause_menu_label(true), "Resume beating");
    assert_eq!(pause_menu_label(false), "Pause beating");
    let rt = core.runtime.get("a").unwrap();
    assert_eq!(next_beat_display(true, rt), Some(0));
    assert_eq!(next_beat_display(false, rt), None);
    assert_eq!(next_beat_display(true, core.runtime.get("b").unwrap()), None);
    core.history.push_beat(
        "a",
        heartbeat_control_center::history::BeatRecord {
            ts: 5,
            kind: BeatKind::OnlineOk,
            http_status: Some(200),
            latency_ms: Some(9),
            note: None,
        },
    );
    let pts = spark_points(&core.history.beats_for("a"));
    assert_eq!(pts.len(), 1);
    assert!(pts[0].ok);
    assert_eq!(pts[0].latency_ms, Some(9));
}

#[test]
fn tray_icons_follow_severity() {
    assert_eq!(tray_icon_file(TraySeverity::Healthy), "tray-ok.png");
    assert_eq!(tray_icon_file(TraySeverity::Degraded), "tray-warn.png");
    assert_eq!(tray_icon_file(TraySeverity::Halted), "tray-err.png");
    assert_eq!(tray_icon_file(TraySeverity::Paused), "tray-paused.png");
}

#[test]
fn offline_report_leaves_a_beat_in_flight_alone() {
    let mut core = core_with(vec![agent("a", true)]);
    core.due_jobs(1_000);
    assert!(core.runtime.get("a").unwrap().in_flight);
    let due = core.runtime.get("a").unwrap().next_beat_at;
    core.record_offline_result("a", Ok(success("offline")), "taken out of service", 1_010);
    let rt = core.runtime.get("a").unwrap();
    assert!(rt.in_flight);
    assert_eq!(rt.next_beat_at, due);
    assert_eq!(rt.last_kind, Some(BeatKind::OfflineOk));
    assert_eq!(core.history.beats_for("a").len(), 1);
}
