use codex_pool::auth::AuthMeta;
use codex_pool::commands::{auto_choice, list_lines, nothing_matched, use_choice};
use codex_pool::db::{AccountRecord, AccountRow, AccountTable, HistoryRow};
use codex_pool::db::{due_accounts, list_accounts};
use codex_pool::probe::{ProbeFailure, ProbeFailureKind, ProbeSnapshot};
use codex_pool::refresh::{
    choose_best, is_quota_showable, merge_quota, refresh_failed, refresh_one, refresh_skipped,
    refresh_succeeded, score, worker_batches, RefreshOutcome, RefreshResult,
};
use codex_pool::report::{
    bool_to_yes_no, cached_line, display_status, error_suffix, format_cached_row, format_epoch,
    format_error_suffix, format_live_row, is_countable, is_row_showable, is_showable, live_line,
    minute_or_dash, percent_left, seconds_to_show, show_times, RowTimes, LAST_MOMENT,
};
use codex_pool::store::{
    is_plannable, is_storable, perform, persist_refresh_result, plan_refresh, subject_of,
    StoreAction,
};

fn account(key: &str, email: Option<&str>) -> AccountRow {
    AccountRow {
        account_key: key.to_string(),
        email: email.map(|text| text.to_string()),
        account_id: None,
        auth_path: format!("/pool/{key}/auth.json"),
        last_refresh: Some("before".to_string()),
        last_refresh_ok_at: None,
        refresh_fail_count: 0,
        last_probe_at: None,
        last_probe_ok_at: None,
        probe_fail_count: 0,
        last_error: None,
        plan: Some("free".to_string()),
        primary_used_percent: Some(10),
        secondary_used_percent: Some(20),
        primary_resets_at: None,
        credits_has_credits: Some(true),
        credits_unlimited: None,
        snapshot_updated_at: Some(5),
        cooldown_until: None,
        next_refresh_due_at: None,
        next_probe_due_at: None,
        last_switched_at: None,
        last_error_kind: None,
    }
}

fn snapshot(limits: bool) -> ProbeSnapshot {
    ProbeSnapshot {
        account_meta: AuthMeta {
            email: Some("new@x".to_string()),
            account_id: None,
            last_refresh: Some("now".to_string()),
        },
        plan: Some("pro".to_string()),
        primary_used_percent: if limits { Some(96) } else { None },
        secondary_used_percent: if limits { Some(30) } else { None },
        primary_resets_at: if limits { Some(7) } else { None },
        credits_has_credits: if limits { Some(false) } else { None },
        credits_unlimited: if limits { Some(true) } else { None },
        rate_limits_available: limits,
        warnings: if limits { Vec::new() } else { vec!["late".to_string(), "w".to_string()] },
    }
}

fn failure() -> ProbeFailure {
    ProbeFailure {
        kind: ProbeFailureKind::AuthFileRead,
        message: "no \"file\"".to_string(),
    }
}

fn times() -> RowTimes {
    let text = |name: &str| name.to_string();
    RowTimes {
        primary_resets_at: text("R"),
        last_probe_at: text("P"),
        last_ok_at: text("O"),
        snapshot_updated_at: text("S"),
        cooldown_until: text("C"),
        next_probe_due_at: text("NP"),
        next_refresh_due_at: text("NR"),
        last_switched_at: text("L"),
    }
}

fn result(key: &str, ok: bool, skipped: bool, used: Option<i64>) -> RefreshResult {
    let mut result = refresh_skipped(&account(key, None));
    result.ok = ok;
    result.skipped = skipped;
    result.score = score(used, None, None, None, None);
    result
}

fn table_of(row: AccountRow) -> AccountTable {
    AccountTable { records: vec![AccountRecord { row, created_at: 1, updated_at: 1 }] }
}

fn store(table: &mut AccountTable, result: &RefreshResult, now: i64) -> Vec<HistoryRow> {
    let mut history = Vec::new();
    for action in persist_refresh_result(result, now) {
        assert!(is_storable(table, &action));
        assert_eq!(perform(table, &mut history, &action, now), Ok(()));
    }
    history
}

fn told(history: &[HistoryRow]) -> Vec<(&str, bool, &str)> {
    history
        .iter()
        .map(|row| (row.kind.as_str(), row.ok, row.message.as_str()))
        .collect()
}

#[test]
fn scores() {
    assert_eq!(
        score(Some(10), Some(20), Some(30), Some(true), Some(true)),
        (false, false, 10, 20, false, false, 30)
    );
    assert_eq!(
        score(None, None, None, None, None),
        (true, true, 100, 100, true, true, i64::MAX)
    );
    assert_eq!(
        score(None, Some(3), None, Some(false), Some(false)),
        (false, true, 100, 3, true, true, i64::MAX)
    );
    assert_eq!(score(Some(100), None, Some(-1), None, None).1, true);
}

#[test]
fn scores_are_ordered_like_tuples() {
    let known = score(Some(150), None, None, None, None);
    let unknown = score(None, None, None, Some(true), Some(true));
    let free = score(Some(99), Some(99), None, None, None);
    assert!(free < known && known < unknown);
    let results = vec![
        result("unknown", true, false, None),
        result("full", true, false, Some(150)),
        result("free", true, false, Some(99)),
    ];
    assert_eq!(choose_best(&results), Some(2));
}

#[test]
fn the_first_of_the_best_is_chosen() {
    let results = vec![
        result("failed", false, false, Some(0)),
        result("skipped", true, true, Some(0)),
        result("worse", true, false, Some(9)),
        result("best", true, false, Some(8)),
        result("as good", true, false, Some(8)),
    ];
    assert_eq!(choose_best(&results), Some(3));
    assert_eq!(choose_best(&vec![result("failed", false, false, Some(0))]), None);
    assert_eq!(choose_best(&Vec::new()), None);
}

#[test]
fn the_best_becomes_active() {
    let mut best = result("best", true, false, Some(8));
    best.email = Some("best@x".to_string());
    let choice = auto_choice(&vec![result("worse", true, false, Some(9)), best]);
    match choice {
        Ok(activation) => {
            assert_eq!(activation.account_key, "best");
            assert_eq!(activation.auth_path, "/pool/best/auth.json");
            assert_eq!(activation.line, "\nselected: best@x");
        }
        Err(line) => panic!("{line}"),
    }
    match auto_choice(&vec![result("only", true, false, None)]) {
        Ok(activation) => assert_eq!(activation.line, "\nselected: only"),
        Err(line) => panic!("{line}"),
    }
    match auto_choice(&Vec::new()) {
        Ok(_) => panic!("chosen"),
        Err(line) => assert_eq!(line, "\nno usable account found"),
    }
}

#[test]
fn the_asked_for_becomes_active() {
    let all = vec![account("a", Some("a@x")), account("b", None)];
    match use_choice(&all, "A@X") {
        Ok(activation) => {
            assert_eq!(activation.account_key, "a");
            assert_eq!(activation.auth_path, "/pool/a/auth.json");
            assert_eq!(activation.line, "switched to a@x");
        }
        Err(message) => panic!("{message}"),
    }
    match use_choice(&all, "2") {
        Ok(activation) => assert_eq!(activation.line, "switched to b"),
        Err(message) => panic!("{message}"),
    }
    match use_choice(&all, " C ") {
        Ok(_) => panic!("found"),
        Err(message) => assert_eq!(message, "account not found:  C "),
    }
}

#[test]
fn batches() {
    assert_eq!(worker_batches(5, 2), vec![(0, 2), (2, 4), (4, 5)]);
    assert_eq!(worker_batches(4, 2), vec![(0, 2), (2, 4)]);
    assert_eq!(worker_batches(2, 0), vec![(0, 1), (1, 2)]);
    assert_eq!(worker_batches(3, usize::MAX), vec![(0, 3)]);
    assert_eq!(worker_batches(0, 4), vec![]);
}

#[test]
fn a_refresh_that_is_skipped() {
    let row = account("a", Some("a@x"));
    let result = refresh_skipped(&row);
    assert_eq!(result.line, "[refresh] a@x  status=skipped  reason=account lock busy");
    assert_eq!(result.history_detail_json, r#"{"warning":"account lock busy"}"#);
    assert_eq!(result.failure_kind.as_deref(), Some("lock_busy"));
    assert_eq!(result.warnings, vec!["account lock busy"]);
    assert!(result.ok && result.skipped && result.rate_limits_available);
    assert_eq!(result.score, score(Some(10), Some(20), None, Some(true), None));
    assert_eq!(refresh_one(&row, RefreshOutcome::LockBusy).line, result.line);
}

#[test]
fn a_skipped_refresh_is_noted_only() {
    let mut table = table_of(account("a", None));
    let history = store(&mut table, &refresh_skipped(&account("a", None)), 100);
    assert_eq!(told(&history), vec![("refresh", true, "refresh skipped")]);
    assert_eq!(history[0].detail_json.as_deref(), Some(r#"{"warning":"account lock busy"}"#));
    assert_eq!(table.records[0].updated_at, 1);
}

#[test]
fn a_refresh_whose_probe_failed() {
    let row = account("a", None);
    let result = refresh_failed(&row, &failure());
    assert_eq!(result.line, "[refresh] a  status=error  reason=no \"file\"");
    assert_eq!(
        result.history_detail_json,
        r#"{"error":"no \"file\"","error_kind":"auth_file_read"}"#
    );
    assert_eq!(result.failure_kind.as_deref(), Some("auth_file_read"));
    assert!(!result.ok && !result.skipped);
    assert_eq!(result.plan.as_deref(), Some("free"));
    assert_eq!(refresh_one(&row, RefreshOutcome::Failed(&failure())).line, result.line);
}

#[test]
fn a_failed_refresh_keeps_the_quota_and_cools_down() {
    let mut table = table_of(account("a", None));
    let result = refresh_failed(&account("a", None), &failure());
    let history = store(&mut table, &result, 1000);
    assert_eq!(
        told(&history),
        vec![("probe", false, "probe failed"), ("refresh", false, "refresh failed")]
    );
    let row = &table.records[0].row;
    assert_eq!(row.plan.as_deref(), Some("free"));
    assert_eq!(row.primary_used_percent, Some(10));
    assert_eq!(row.snapshot_updated_at, Some(5));
    assert_eq!((row.refresh_fail_count, row.probe_fail_count), (1, 1));
    assert_eq!(row.last_error.as_deref(), Some(result.line.as_str()));
    assert_eq!(row.last_error_kind.as_deref(), Some("auth_file_read"));
    assert_eq!(row.cooldown_until, Some(1900));
    assert_eq!(row.next_probe_due_at, Some(1300));
    assert_eq!(row.next_refresh_due_at, Some(1300));
    assert!(due_accounts(&list_accounts(&table), 1899).is_empty());
    assert_eq!(due_accounts(&list_accounts(&table), 1900).len(), 1);
}

#[test]
fn a_failure_without_a_kind() {
    let mut result = refresh_failed(&account("a", None), &failure());
    result.failure_kind = None;
    match &persist_refresh_result(&result, 10)[0] {
        StoreAction::RefreshFailure { error_kind, cooldown_until, .. } => {
            assert_eq!(*error_kind, "refresh_failed");
            assert_eq!(*cooldown_until, 310);
        }
        _ => panic!("another action"),
    }
}

#[test]
fn a_refresh_that_went_well() {
    let row = account("a", Some("a@x"));
    let result = refresh_succeeded(&row, &snapshot(true), "01-02 03:04");
    assert_eq!(
        result.line,
        "[refresh] new@x  plan=pro  5h=4% left  weekly=70% left  reset_5h=01-02 03:04  credits=no  status=usable"
    );
    assert_eq!(
        result.history_detail_json,
        r#"{"credits_has_credits":false,"credits_unlimited":true,"observed_last_refresh":"now","plan":"pro","primary_resets_at":7,"primary_used_percent":96,"rate_limits_available":true,"secondary_used_percent":30,"warnings":[]}"#
    );
    assert_eq!(result.email.as_deref(), Some("new@x"));
    assert_eq!(result.account_key, "a");
    assert_eq!(result.failure_kind, None);
    assert_eq!(result.score, score(Some(96), Some(30), Some(7), Some(false), Some(true)));
}

#[test]
fn a_refresh_without_limits_keeps_the_quota() {
    let row = account("a", None);
    let result = refresh_one(&row, RefreshOutcome::Probed(&snapshot(false)));
    assert_eq!(
        result.line,
        "[refresh] new@x  plan=pro  5h=90% left  weekly=80% left  reset_5h=-  credits=yes  status=usable  warning=late"
    );
    let mut table = table_of(account("a", None));
    let history = store(&mut table, &result, 1000);
    assert_eq!(
        told(&history),
        vec![
            ("probe", true, "probe succeeded"),
            ("refresh", true, "refresh persisted"),
            ("probe", true, "probe completed with warnings"),
        ]
    );
    let row = &table.records[0].row;
    assert_eq!(row.primary_used_percent, Some(10));
    assert_eq!(row.secondary_used_percent, Some(20));
    assert_eq!(row.credits_has_credits, Some(true));
    assert_eq!(row.next_probe_due_at, Some(1900));
}

#[test]
fn a_good_refresh_clears_the_error() {
    let mut old = account("a", None);
    old.last_error = Some("old".to_string());
    old.cooldown_until = Some(5000);
    old.probe_fail_count = 2;
    old.refresh_fail_count = 2;
    let result = refresh_succeeded(&old, &snapshot(true), "-");
    let mut table = table_of(old);
    let history = store(&mut table, &result, 1000);
    assert_eq!(
        told(&history),
        vec![("probe", true, "probe succeeded"), ("refresh", true, "refresh persisted")]
    );
    let row = &table.records[0].row;
    assert_eq!(row.last_error, None);
    assert_eq!(row.cooldown_until, None);
    assert_eq!((row.refresh_fail_count, row.probe_fail_count), (2, 0));
    assert_eq!(row.plan.as_deref(), Some("pro"));
    assert_eq!(row.last_refresh.as_deref(), Some("now"));
    assert_eq!(row.next_probe_due_at, Some(1600));
    assert_eq!(row.next_refresh_due_at, Some(8200));
    assert!(due_accounts(&list_accounts(&table), 1599).is_empty());
    assert_eq!(due_accounts(&list_accounts(&table), 1600).len(), 1);
}

#[test]
fn counters_that_are_full() {
    let mut full = account("a", None);
    full.refresh_fail_count = i64::MAX;
    let table = table_of(full);
    let failed = refresh_failed(&account("a", None), &failure());
    let other = refresh_failed(&account("b", None), &failure());
    assert!(!is_storable(&table, &persist_refresh_result(&failed, 0)[0]));
    assert!(is_storable(&table, &persist_refresh_result(&failed, 0)[1]));
    assert!(is_storable(&table, &persist_refresh_result(&other, 0)[0]));
}

#[test]
fn moments_that_cannot_be_counted() {
    let failed = refresh_failed(&account("a", None), &failure());
    let good = refresh_succeeded(&account("a", None), &snapshot(true), "-");
    assert!(is_plannable(&refresh_skipped(&account("a", None)), i64::MAX));
    assert!(is_plannable(&failed, i64::MAX - 900) && !is_plannable(&failed, i64::MAX - 899));
    assert!(is_plannable(&good, i64::MAX - 7200) && !is_plannable(&good, i64::MAX - 7199));
    assert_eq!(plan_refresh(&good, 1000).unwrap().len(), 3);
    assert!(plan_refresh(&good, i64::MAX - 7199).is_none());
    let mut stale = good;
    stale.observed_last_refresh = Some("2025-01-02T03:04:05Z".to_string());
    assert!(plan_refresh(&stale, i64::MAX - 1800).is_some());
    assert!(plan_refresh(&stale, i64::MAX - 1799).is_none());
}

#[test]
fn actions_name_their_account() {
    let failed = refresh_failed(&account("a", None), &failure());
    let good = refresh_succeeded(&account("a", None), &snapshot(true), "-");
    for result in [&failed, &good] {
        for action in persist_refresh_result(result, 0) {
            assert_eq!(subject_of(&action), "a");
        }
    }
}

#[test]
fn quotas_that_cannot_be_shown() {
    let row = account("a", None);
    let mut seen = snapshot(true);
    assert!(is_quota_showable(&merge_quota(&row, &seen)));
    seen.primary_resets_at = Some(LAST_MOMENT + 1);
    assert!(!is_quota_showable(&merge_quota(&row, &seen)));
    seen.primary_resets_at = None;
    seen.primary_used_percent = Some(i64::MIN);
    assert!(!is_quota_showable(&merge_quota(&row, &seen)));
}

#[test]
fn what_is_left_of_a_quota() {
    assert_eq!(percent_left(Some(0)), "100%");
    assert_eq!(percent_left(Some(99)), "1%");
    assert_eq!(percent_left(Some(100)), "0%");
    assert_eq!(percent_left(Some(250)), "0%");
    assert_eq!(percent_left(Some(-5)), "105%");
    assert_eq!(percent_left(None), "-");
    assert!(is_countable(Some(100 - i64::MAX)));
    assert!(!is_countable(Some(99 - i64::MAX)));
    assert_eq!(percent_left(Some(100 - i64::MAX)), "9223372036854775807%");
}

#[test]
fn words_of_the_lines() {
    assert_eq!(bool_to_yes_no(Some(true)), "yes");
    assert_eq!(bool_to_yes_no(Some(false)), "no");
    assert_eq!(bool_to_yes_no(None), "no");
    assert_eq!(display_status(None, None), "quota_unknown");
    assert_eq!(display_status(Some(100), None), "full");
    assert_eq!(display_status(Some(99), Some(100)), "usable");
    assert_eq!(display_status(None, Some(100)), "full");
    assert_eq!(display_status(None, Some(99)), "quota_unknown");
}

#[test]
fn moments() {
    let shown = format_epoch(Some(1_700_000_000));
    let parts: Vec<bool> = shown.chars().map(|c| c.is_ascii_digit()).collect();
    assert_eq!(
        parts,
        vec![true, true, false, true, true, false, true, true, false, true, true]
    );
    for seconds in [0, 951_782_399, 1_700_000_000, 4_107_542_399, LAST_MOMENT] {
        let utc = chrono::DateTime::from_timestamp(seconds, 0).unwrap();
        let local = utc.with_timezone(&chrono::Local);
        assert_eq!(format_epoch(Some(seconds)), local.format("%m-%d %H:%M").to_string());
    }
    assert_eq!(format_epoch(Some(LAST_MOMENT)).len(), 11);
    assert_eq!(format_epoch(Some(-1)), "-");
    assert_eq!(format_epoch(None), "-");
    assert!(is_showable(Some(LAST_MOMENT)) && !is_showable(Some(LAST_MOMENT + 1)));
    assert!(is_showable(Some(i64::MIN)) && is_showable(None));
    assert_eq!(seconds_to_show(Some(5)), Some(5));
    assert_eq!(seconds_to_show(Some(-5)), None);
    assert_eq!(minute_or_dash(Some("x".to_string())), "x");
    assert_eq!(minute_or_dash(None), "-");
}

#[test]
fn lines_about_refreshed_accounts() {
    assert_eq!(
        live_line("n", None, Some(100), None, "r", None, true, Some("w")),
        "[refresh] n  plan=-  5h=0% left  weekly=- left  reset_5h=r  credits=no  status=full  warning=w"
    );
    assert_eq!(
        live_line("n", None, None, None, "r", None, false, None),
        "[refresh] n  status=error  reason=unknown"
    );
    let row = account("key", Some("ignored"));
    assert_eq!(
        format_live_row(&row, None, Some("p"), None, Some(1), None, Some(true), true, None),
        "[refresh] key  plan=p  5h=- left  weekly=99% left  reset_5h=-  credits=yes  status=quota_unknown"
    );
    assert_eq!(
        format_live_row(&row, Some("e"), None, None, None, None, None, false, Some("bad")),
        "[refresh] e  status=error  reason=bad"
    );
}

#[test]
fn lines_about_stored_accounts() {
    let mut row = account("key", None);
    row.refresh_fail_count = 3;
    assert_eq!(
        cached_line(2, 12, &row, 50, &times()),
        "[2/12] key  account_id=-  plan=free  5h=90% left  weekly=80% left  reset_5h=R  credits=yes  last_refresh=before  last_probe=P  last_ok=O  refresh_failures=3  snapshot=S  status=cached"
    );
    row.probe_fail_count = 1;
    assert!(cached_line(1, 1, &row, 50, &times()).ends_with("  status=stale"));
    row.cooldown_until = Some(51);
    assert!(cached_line(1, 1, &row, 50, &times())
        .ends_with("  status=cooling_down  cooldown_until=C"));
    assert!(cached_line(1, 1, &row, 51, &times()).ends_with("  status=stale  cooldown_until=C"));
}

#[test]
fn ends_of_the_lines() {
    let mut row = account("key", None);
    assert_eq!(error_suffix(&row, &times()), "");
    row.cooldown_until = Some(-1);
    row.next_probe_due_at = Some(-1);
    row.next_refresh_due_at = Some(-1);
    row.last_switched_at = Some(-1);
    row.last_error = Some("e".to_string());
    assert_eq!(
        error_suffix(&row, &times()),
        "  cooldown_until=C  next_probe=NP  next_refresh=NR  last_switch=L  last_error_kind=-  last_error=e"
    );
    row.last_error_kind = Some("k".to_string());
    assert_eq!(
        format_error_suffix(&row),
        "  cooldown_until=-  next_probe=-  next_refresh=-  last_switch=-  last_error_kind=k  last_error=e"
    );
}

#[test]
fn rows_with_their_moments() {
    let mut row = account("key", Some("e"));
    row.last_refresh_ok_at = Some(0);
    row.snapshot_updated_at = None;
    assert!(is_row_showable(&row));
    let times = show_times(&row);
    assert_eq!(times.last_ok_at, format_epoch(Some(0)));
    assert_eq!(times.last_probe_at, "-");
    let line = format_cached_row(1, 2, &row);
    assert!(line.starts_with("[1/2] e  account_id=-  plan=free"));
    assert!(line.ends_with("  snapshot=-  status=cached"));
    row.cooldown_until = Some(i64::MAX);
    assert!(!is_row_showable(&row));
    row.cooldown_until = Some(LAST_MOMENT);
    assert!(format_cached_row(1, 2, &row).contains("status=cooling_down"));
}

#[test]
fn the_list_of_accounts() {
    let lines = list_lines(&vec![account("a", None), account("b", None)]);
    assert_eq!(lines.len(), 2);
    assert!(lines[0].starts_with("[1/2] a ") && lines[1].starts_with("[2/2] b "));
    assert_eq!(list_lines(&Vec::new()), vec!["account pool is empty; run `add` first"]);
    let mut odd = account("b", None);
    odd.last_probe_at = Some(LAST_MOMENT + 1);
    let lines = list_lines(&vec![account("a", None), odd, account("c", None)]);
    assert_eq!(lines.len(), 1);
    assert!(lines[0].starts_with("[1/3] a "));
    assert_eq!(nothing_matched(&Vec::new()), Some("no accounts matched"));
    assert_eq!(nothing_matched(&vec![account("a", None)]), None);
}
