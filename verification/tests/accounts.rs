use codex_pool::db::{
    display_name, due_accounts, epoch_now, epoch_seconds, get_account_by_selector, list_accounts,
    mark_switch, parse_index, record_history, record_probe, schema_additions, select_rows,
    touch_refresh_failure, upsert_account, AccountRecord, AccountRow, AccountTable, HistoryEvent,
    HistoryError, HistoryKind, HistoryRow, ProbeUpdate, UpsertAccount,
};

fn account(key: &str, email: Option<&str>) -> AccountRow {
    AccountRow {
        account_key: key.to_string(),
        email: email.map(|text| text.to_string()),
        account_id: None,
        auth_path: format!("/pool/{key}/auth.json"),
        last_refresh: None,
        last_refresh_ok_at: None,
        refresh_fail_count: 0,
        last_probe_at: None,
        last_probe_ok_at: None,
        probe_fail_count: 0,
        last_error: None,
        plan: None,
        primary_used_percent: None,
        secondary_used_percent: None,
        primary_resets_at: None,
        credits_has_credits: None,
        credits_unlimited: None,
        snapshot_updated_at: None,
        cooldown_until: None,
        next_refresh_due_at: None,
        next_probe_due_at: None,
        last_switched_at: None,
        last_error_kind: None,
    }
}

fn table_of(rows: Vec<AccountRow>) -> AccountTable {
    AccountTable {
        records: rows
            .into_iter()
            .map(|row| AccountRecord { row, created_at: 1, updated_at: 1 })
            .collect(),
    }
}

fn update(key: &str, ok: bool) -> ProbeUpdate<'_> {
    ProbeUpdate {
        account_key: key,
        ok,
        error: Some("broken"),
        plan: Some("pro"),
        primary_used_percent: Some(40),
        secondary_used_percent: Some(50),
        primary_resets_at: Some(60),
        credits_has_credits: Some(true),
        credits_unlimited: Some(false),
        observed_last_refresh: Some("then"),
        next_probe_due_at: 700,
        next_refresh_due_at: 800,
        cooldown_until: Some(900),
        error_kind: Some("kind"),
    }
}

fn keys(rows: &[AccountRow]) -> Vec<&str> {
    rows.iter().map(|row| row.account_key.as_str()).collect()
}

#[test]
fn places_in_the_list() {
    assert_eq!(parse_index("7"), Some(7));
    assert_eq!(parse_index("+7"), Some(7));
    assert_eq!(parse_index("007"), Some(7));
    assert_eq!(parse_index(&usize::MAX.to_string()), Some(usize::MAX));
    assert_eq!(parse_index("18446744073709551616"), None);
    for text in ["", "+", "-1", " 1", "1a", "++1", "١"] {
        assert_eq!(parse_index(text), None);
        assert!(text.parse::<usize>().is_err());
    }
}

#[test]
fn accounts_are_picked_by_place() {
    let all = vec![account("a", None), account("2", Some("b@x")), account("c", None)];
    for (place, row) in all.iter().enumerate() {
        let picked = get_account_by_selector(&all, &(place + 1).to_string()).unwrap();
        assert_eq!(picked.account_key, row.account_key);
    }
    assert!(get_account_by_selector(&all, "0").is_none());
    assert!(get_account_by_selector(&all, "4").is_none());
}

#[test]
fn a_number_that_is_no_place_is_a_name() {
    let all = vec![account("17", None)];
    assert_eq!(get_account_by_selector(&all, "17").unwrap().account_key, "17");
    assert_eq!(get_account_by_selector(&all, " 17 ").unwrap().account_key, "17");
}

#[test]
fn accounts_are_picked_by_name() {
    let all = vec![account("a", Some("b")), account("b", None), account("c", Some("c@x"))];
    assert_eq!(get_account_by_selector(&all, "b").unwrap().account_key, "a");
    assert_eq!(get_account_by_selector(&all, " C@X\n").unwrap().account_key, "c");
    assert!(get_account_by_selector(&all, "d").is_none());
    let upper = vec![account("A", None)];
    assert!(get_account_by_selector(&upper, "A").is_none());
}

#[test]
fn rows_for_a_command() {
    let all = || vec![account("a", None), account("b", None)];
    assert_eq!(keys(&select_rows(all(), None)), vec!["a", "b"]);
    assert_eq!(keys(&select_rows(all(), Some("b"))), vec!["b"]);
    assert!(select_rows(all(), Some("c")).is_empty());
}

#[test]
fn accounts_are_listed_by_name() {
    let table = table_of(vec![
        account("z", Some("b")),
        account("c", None),
        account("y", Some("B")),
        account("x", Some("bb")),
        account("w", Some("ä")),
        account("a", None),
    ]);
    let rows = list_accounts(&table);
    let names: Vec<&str> = rows.iter().map(|row| display_name(row)).collect();
    assert_eq!(names, vec!["B", "a", "b", "bb", "c", "ä"]);
    assert!(list_accounts(&table_of(Vec::new())).is_empty());
}

#[test]
fn accounts_that_are_due() {
    let mut cooling = account("cooling", None);
    cooling.cooldown_until = Some(101);
    let mut cooled = account("cooled", None);
    cooled.cooldown_until = Some(100);
    let mut probe = account("probe", None);
    probe.next_refresh_due_at = Some(500);
    probe.next_probe_due_at = Some(100);
    let mut refresh = account("refresh", None);
    refresh.next_refresh_due_at = Some(99);
    refresh.next_probe_due_at = Some(500);
    let mut later = account("later", None);
    later.next_refresh_due_at = Some(101);
    later.next_probe_due_at = Some(101);
    let all = vec![account("new", None), cooling, cooled, probe, refresh, later];
    assert_eq!(keys(&due_accounts(&all, 100)), vec!["new", "cooled", "probe", "refresh"]);
}

#[test]
fn new_credentials_make_a_new_account() {
    let mut table = table_of(vec![account("a", None)]);
    let credentials = UpsertAccount {
        account_key: "b",
        email: Some("b@x"),
        account_id: Some("id"),
        auth_path: "/p",
        last_refresh: None,
    };
    upsert_account(&mut table, &credentials, 77);
    assert_eq!(table.records.len(), 2);
    let record = &table.records[1];
    assert_eq!((record.created_at, record.updated_at), (77, 77));
    assert_eq!(record.row.account_key, "b");
    assert_eq!(record.row.email.as_deref(), Some("b@x"));
    assert_eq!(record.row.account_id.as_deref(), Some("id"));
    assert_eq!(record.row.auth_path, "/p");
    assert_eq!(record.row.refresh_fail_count, 0);
    assert_eq!(due_accounts(&list_accounts(&table), 0).len(), 2);
}

#[test]
fn credentials_that_come_again_keep_the_state() {
    let mut old = account("a", Some("old@x"));
    old.last_refresh = Some("before".to_string());
    old.probe_fail_count = 3;
    old.plan = Some("pro".to_string());
    let mut table = table_of(vec![old]);
    let credentials = UpsertAccount {
        account_key: "a",
        email: None,
        account_id: Some("id"),
        auth_path: "/new",
        last_refresh: None,
    };
    upsert_account(&mut table, &credentials, 77);
    assert_eq!(table.records.len(), 1);
    let record = &table.records[0];
    assert_eq!((record.created_at, record.updated_at), (1, 77));
    assert_eq!(record.row.email, None);
    assert_eq!(record.row.auth_path, "/new");
    assert_eq!(record.row.last_refresh.as_deref(), Some("before"));
    assert_eq!(record.row.probe_fail_count, 3);
    assert_eq!(record.row.plan.as_deref(), Some("pro"));
    upsert_account(&mut table, &UpsertAccount { last_refresh: Some("now"), ..credentials }, 78);
    assert_eq!(table.records[0].row.last_refresh.as_deref(), Some("now"));
}

#[test]
fn a_probe_that_went_well() {
    let mut old = account("a", None);
    old.probe_fail_count = 4;
    old.refresh_fail_count = 5;
    old.last_error = Some("old".to_string());
    old.last_error_kind = Some("old".to_string());
    let mut table = table_of(vec![account("b", None), old]);
    record_probe(&mut table, &update("a", true), 50);
    let row = &table.records[1].row;
    assert_eq!(table.records[1].updated_at, 50);
    assert_eq!(row.last_probe_at, Some(50));
    assert_eq!(row.last_probe_ok_at, Some(50));
    assert_eq!(row.probe_fail_count, 0);
    assert_eq!(row.refresh_fail_count, 5);
    assert_eq!(row.last_error, None);
    assert_eq!(row.last_error_kind, None);
    assert_eq!(row.plan.as_deref(), Some("pro"));
    assert_eq!(row.primary_used_percent, Some(40));
    assert_eq!(row.secondary_used_percent, Some(50));
    assert_eq!(row.primary_resets_at, Some(60));
    assert_eq!(row.credits_has_credits, Some(true));
    assert_eq!(row.credits_unlimited, Some(false));
    assert_eq!(row.snapshot_updated_at, Some(50));
    assert_eq!(row.last_refresh.as_deref(), Some("then"));
    assert_eq!(row.last_refresh_ok_at, Some(50));
    assert_eq!(row.next_probe_due_at, Some(700));
    assert_eq!(row.next_refresh_due_at, Some(800));
    assert_eq!(row.cooldown_until, Some(900));
    assert_eq!(table.records[0].row.last_probe_at, None);
    assert_eq!(table.records[0].updated_at, 1);
}

#[test]
fn a_probe_that_failed() {
    let mut old = account("a", None);
    old.plan = Some("free".to_string());
    old.primary_used_percent = Some(1);
    old.last_refresh = Some("before".to_string());
    old.probe_fail_count = 4;
    let mut table = table_of(vec![old]);
    let failed = ProbeUpdate { observed_last_refresh: None, ..update("a", false) };
    record_probe(&mut table, &failed, 50);
    let row = &table.records[0].row;
    assert_eq!(row.last_probe_at, Some(50));
    assert_eq!(row.last_probe_ok_at, None);
    assert_eq!(row.probe_fail_count, 5);
    assert_eq!(row.last_error.as_deref(), Some("broken"));
    assert_eq!(row.last_error_kind.as_deref(), Some("kind"));
    assert_eq!(row.plan.as_deref(), Some("free"));
    assert_eq!(row.primary_used_percent, Some(1));
    assert_eq!(row.snapshot_updated_at, None);
    assert_eq!(row.last_refresh.as_deref(), Some("before"));
    assert_eq!(row.last_refresh_ok_at, None);
    assert_eq!(row.cooldown_until, Some(900));
}

#[test]
fn a_probe_of_nobody_changes_nothing() {
    let mut table = table_of(vec![account("a", None)]);
    record_probe(&mut table, &update("b", true), 50);
    assert_eq!(table.records.len(), 1);
    assert_eq!(table.records[0].updated_at, 1);
    assert_eq!(table.records[0].row.last_probe_at, None);
}

#[test]
fn a_refresh_that_failed() {
    let mut table = table_of(vec![account("a", None), account("b", None)]);
    touch_refresh_failure(&mut table, "b", "line", "kind", 99, 50);
    touch_refresh_failure(&mut table, "c", "line", "kind", 99, 50);
    let row = &table.records[1].row;
    assert_eq!(row.refresh_fail_count, 1);
    assert_eq!(row.probe_fail_count, 0);
    assert_eq!(row.last_error.as_deref(), Some("line"));
    assert_eq!(row.last_error_kind.as_deref(), Some("kind"));
    assert_eq!(row.cooldown_until, Some(99));
    assert_eq!(table.records[1].updated_at, 50);
    assert_eq!(table.records[0].row.refresh_fail_count, 0);
}

#[test]
fn an_account_becomes_active() {
    let mut table = table_of(vec![account("a", None), account("b", None)]);
    mark_switch(&mut table, "b", 50);
    assert_eq!(table.records[0].row.last_switched_at, None);
    assert_eq!(table.records[1].row.last_switched_at, Some(50));
    assert_eq!(table.records[1].updated_at, 50);
}

#[test]
fn the_history_grows_at_the_end() {
    let table = table_of(vec![account("a", None)]);
    let mut history: Vec<HistoryRow> = Vec::new();
    let event = HistoryEvent {
        account_key: "a",
        kind: HistoryKind::Probe,
        ok: false,
        message: "m",
        detail_json: Some("{}"),
    };
    let switch = HistoryEvent { kind: HistoryKind::Switch, ..event };
    assert_eq!(record_history(&table, &mut history, &event, 5), Ok(()));
    assert_eq!(record_history(&table, &mut history, &switch, 6), Ok(()));
    assert_eq!(history.len(), 2);
    assert_eq!(history[0].kind, "probe");
    assert_eq!(history[0].account_key, "a");
    assert!(!history[0].ok);
    assert_eq!(history[0].message, "m");
    assert_eq!(history[0].detail_json.as_deref(), Some("{}"));
    assert_eq!(history[0].created_at, 5);
    assert_eq!(history[1].kind, "switch");
    assert_eq!(HistoryKind::Refresh.as_str(), "refresh");
}

#[test]
fn the_history_knows_its_accounts() {
    let table = table_of(vec![account("a", None)]);
    let mut history: Vec<HistoryRow> = Vec::new();
    let event = HistoryEvent {
        account_key: "b",
        kind: HistoryKind::Probe,
        ok: true,
        message: "m",
        detail_json: None,
    };
    assert_eq!(
        record_history(&table, &mut history, &event, 5),
        Err(HistoryError::UnknownAccount)
    );
    assert!(history.is_empty());
}

#[test]
fn added_columns_are_not_asked_for_again() {
    let mut columns = vec!["account_key".to_string(), "last_switched_at".to_string()];
    let statements = schema_additions(&columns);
    assert_eq!(statements.len(), 4);
    for statement in statements {
        columns.push(statement.split(' ').nth(5).unwrap().to_string());
    }
    assert!(schema_additions(&columns).is_empty());
}

#[test]
fn missing_columns_are_added() {
    let all: Vec<String> = [
        "cooldown_until",
        "next_refresh_due_at",
        "next_probe_due_at",
        "last_switched_at",
        "last_error_kind",
    ]
    .iter()
    .map(|name| name.to_string())
    .collect();
    assert!(schema_additions(&all).is_empty());
    assert_eq!(schema_additions(&Vec::new()).len(), 5);
    assert_eq!(
        schema_additions(&all[..4].to_vec()),
        vec!["ALTER TABLE accounts ADD COLUMN last_error_kind TEXT"]
    );
    assert_eq!(
        schema_additions(&all[1..].to_vec()),
        vec!["ALTER TABLE accounts ADD COLUMN cooldown_until INTEGER"]
    );
}

#[test]
fn the_clock() {
    assert_eq!(epoch_seconds(None), 0);
    assert_eq!(epoch_seconds(Some(17)), 17);
    assert!(epoch_now() > 1_700_000_000);
}
