use codex_pool::db::{schema_additions, schema_statements};
use rusqlite::Connection;

fn columns_of(conn: &Connection, table: &str) -> Vec<String> {
    let mut stmt = conn.prepare(&format!("PRAGMA table_info({table})")).unwrap();
    let names = stmt.query_map([], |row| row.get::<_, String>(1)).unwrap();
    names.map(|name| name.unwrap()).collect()
}

/// Brings the tables up to date and gives the number of columns that came.
fn open_schema(conn: &Connection) -> usize {
    for statement in schema_statements() {
        conn.execute(&statement, []).unwrap();
    }
    let additions = schema_additions(&columns_of(conn, "accounts"));
    for statement in &additions {
        conn.execute(statement, []).unwrap();
    }
    additions.len()
}

#[test]
fn statements_of_the_schema() {
    let statements = schema_statements();
    assert_eq!(statements.len(), 2);
    assert_eq!(
        statements[0],
        "CREATE TABLE IF NOT EXISTS accounts (account_key TEXT PRIMARY KEY, email TEXT, account_id TEXT, auth_path TEXT NOT NULL, last_refresh TEXT, created_at INTEGER NOT NULL, updated_at INTEGER NOT NULL, last_refresh_ok_at INTEGER, refresh_fail_count INTEGER NOT NULL DEFAULT 0, last_probe_at INTEGER, last_probe_ok_at INTEGER, probe_fail_count INTEGER NOT NULL DEFAULT 0, last_error TEXT, plan TEXT, primary_used_percent INTEGER, secondary_used_percent INTEGER, primary_resets_at INTEGER, credits_has_credits INTEGER, credits_unlimited INTEGER, snapshot_updated_at INTEGER, cooldown_until INTEGER, next_refresh_due_at INTEGER, next_probe_due_at INTEGER, last_switched_at INTEGER, last_error_kind TEXT)"
    );
}

#[test]
fn new_tables_need_no_more_columns() {
    let conn = Connection::open_in_memory().unwrap();
    assert_eq!(open_schema(&conn), 0);
    let columns = columns_of(&conn, "accounts");
    assert_eq!(columns.len(), 25);
    assert_eq!(columns[0], "account_key");
    assert_eq!(columns[24], "last_error_kind");
    assert_eq!(
        columns_of(&conn, "history"),
        vec!["id", "account_key", "kind", "ok", "message", "detail_json", "created_at"]
    );
    assert_eq!(open_schema(&conn), 0);
    assert_eq!(columns_of(&conn, "accounts"), columns);
}

#[test]
fn older_tables_get_the_missing_columns() {
    let conn = Connection::open_in_memory().unwrap();
    conn.execute("CREATE TABLE accounts (account_key TEXT PRIMARY KEY, next_probe_due_at INTEGER)", [])
        .unwrap();
    conn.execute("INSERT INTO accounts VALUES ('a', 7)", []).unwrap();
    assert_eq!(open_schema(&conn), 4);
    let columns = columns_of(&conn, "accounts");
    assert_eq!(
        columns,
        vec![
            "account_key",
            "next_probe_due_at",
            "cooldown_until",
            "next_refresh_due_at",
            "last_switched_at",
            "last_error_kind",
        ]
    );
    let kept: (String, i64, Option<i64>, Option<String>) = conn
        .query_row(
            "SELECT account_key, next_probe_due_at, cooldown_until, last_error_kind FROM accounts",
            [],
            |row| Ok((row.get(0)?, row.get(1)?, row.get(2)?, row.get(3)?)),
        )
        .unwrap();
    assert_eq!(kept, ("a".to_string(), 7, None, None));
    assert_eq!(open_schema(&conn), 0);
    assert_eq!(columns_of(&conn, "accounts"), columns);
}

#[test]
fn entries_of_nobody_are_refused_by_the_schema() {
    let conn = Connection::open_in_memory().unwrap();
    conn.execute_batch("PRAGMA foreign_keys = ON").unwrap();
    open_schema(&conn);
    let entry = "INSERT INTO history (account_key, kind, ok, message, created_at) VALUES ('a', 'probe', 1, 'm', 5)";
    assert!(conn.execute(entry, []).is_err());
    conn.execute(
        "INSERT INTO accounts (account_key, auth_path, created_at, updated_at) VALUES ('a', '/p', 1, 1)",
        [],
    )
    .unwrap();
    assert!(conn.execute(entry, []).is_ok());
}
