use codex_pool::probe::ProbeFailureKind;
use codex_pool::schedule::{
    compute_cooldown_until, compute_next_probe_due_at, compute_next_refresh_due_at, cooldown_for,
    probe_delay_for, refresh_delay_for, refresh_due_at,
};

#[test]
fn next_probe() {
    assert_eq!(compute_next_probe_due_at(1000, false, true, Some(0)), 1300);
    assert_eq!(compute_next_probe_due_at(1000, true, false, Some(0)), 1900);
    assert_eq!(compute_next_probe_due_at(1000, true, true, None), 1600);
    assert_eq!(compute_next_probe_due_at(1000, true, true, Some(95)), 1600);
    assert_eq!(compute_next_probe_due_at(1000, true, true, Some(94)), 2800);
    assert_eq!(compute_next_probe_due_at(1000, true, true, Some(80)), 2800);
    assert_eq!(compute_next_probe_due_at(1000, true, true, Some(79)), 4600);
}

#[test]
fn next_refresh() {
    assert_eq!(refresh_due_at(1000, false, None), 1300);
    assert_eq!(refresh_due_at(1000, true, None), 8200);
    assert_eq!(refresh_due_at(100_000, true, Some(100_000 - 86_400)), 107_200);
    assert_eq!(refresh_due_at(100_000, true, Some(100_000 - 86_401)), 101_800);
    assert_eq!(refresh_due_at(0, true, Some(i64::MIN)), 1800);
    assert_eq!(refresh_due_at(0, true, Some(i64::MAX)), 7200);
}

#[test]
fn next_refresh_by_the_text_of_the_last() {
    let now = 1_735_787_045;
    let at = |text: &str| compute_next_refresh_due_at(now, true, Some(text)) - now;
    assert_eq!(at("2025-01-02T03:04:05Z"), 7200);
    assert_eq!(at("2025-01-01T03:04:05Z"), 7200);
    assert_eq!(at("2025-01-01T03:04:04Z"), 1800);
    assert_eq!(at("2025-01-01T05:04:04+02:00"), 1800);
    assert_eq!(at("yesterday"), 7200);
    assert_eq!(compute_next_refresh_due_at(now, true, None), now + 7200);
    assert_eq!(compute_next_refresh_due_at(now, false, Some("2025-01-01T03:04:04Z")), now + 300);
}

#[test]
fn delays_in_seconds() {
    assert_eq!(probe_delay_for(true, true, Some(80)), 1800);
    assert_eq!(probe_delay_for(false, true, None), 300);
    assert_eq!(refresh_delay_for(100_000, true, Some(0)), 1800);
    assert_eq!(refresh_delay_for(100_000, true, None), 7200);
    let now = i64::MAX - 1800;
    assert_eq!(compute_next_refresh_due_at(now, true, Some("2025-01-02T03:04:05Z")), i64::MAX);
}

#[test]
fn cooldown_by_kind() {
    let after = |kind: Option<&str>| compute_cooldown_until(1000, false, kind);
    assert_eq!(after(Some("rate_limits_timeout")), Some(1180));
    assert_eq!(after(Some("account_read_timeout")), Some(1300));
    assert_eq!(after(Some("app_server_spawn")), Some(1600));
    assert_eq!(after(Some("app_server_exit")), Some(1600));
    assert_eq!(after(Some("auth_file_read")), Some(1900));
    assert_eq!(after(Some("lock_busy")), Some(1060));
    assert_eq!(after(Some("something else")), Some(1300));
    assert_eq!(after(None), Some(1300));
    assert_eq!(compute_cooldown_until(1000, true, Some("lock_busy")), None);
}

#[test]
fn cooldown_in_seconds() {
    assert_eq!(cooldown_for(Some("rate_limits_timeout")), 180);
    assert_eq!(cooldown_for(Some("lock_busy")), 60);
    assert_eq!(cooldown_for(None), 300);
}

#[test]
fn cooldown_of_the_failures_of_a_probe() {
    let after = |kind: ProbeFailureKind| compute_cooldown_until(0, false, Some(kind.as_str()));
    assert_eq!(after(ProbeFailureKind::AppServerSpawn), Some(600));
    assert_eq!(after(ProbeFailureKind::AppServerExit), Some(600));
    assert_eq!(after(ProbeFailureKind::AccountReadTimeout), Some(300));
    assert_eq!(after(ProbeFailureKind::AuthFileRead), Some(900));
}
