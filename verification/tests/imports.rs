use std::path::PathBuf;

use codex_pool::auth::parse_auth;
use codex_pool::commands::{
    after_tick, daemon_running_message, is_json_extension, is_legacy_auth, migrated_message,
    missing_auth_message, missing_legacy_message, plan_import, tick_message, Activation, DaemonStep,
    Import,
};
use codex_pool::config::Paths;
use codex_pool::db::{AccountTable, HistoryError, HistoryKind, HistoryRow};
use codex_pool::store::{perform, StoreAction};

fn home_paths() -> Paths {
    match Paths::discover(Some(PathBuf::from("/home/me"))) {
        Ok(paths) => paths,
        Err(error) => panic!("{}", error.message()),
    }
}

fn import_of(text: &str) -> Import {
    match parse_auth(text) {
        Ok(auth) => plan_import(&home_paths(), &auth),
        Err(error) => panic!("{}", error.message),
    }
}

#[test]
fn credentials_get_a_directory_of_their_own() {
    let import = import_of(r#"{"tokens":{"account_id":"Acc 1"},"last_refresh":"then"}"#);
    let dir = PathBuf::from("/home/me/.codex/account-pool-rs/accounts/acc_1");
    assert_eq!(import.account_key, "acc_1");
    assert_eq!(import.account_dir, dir);
    assert_eq!(import.auth_file, dir.join("auth.json"));
    assert_eq!(
        import.auth_path,
        "/home/me/.codex/account-pool-rs/accounts/acc_1/auth.json"
    );
    assert_eq!(
        String::from_utf8(import.contents).unwrap(),
        "{\n  \"last_refresh\": \"then\",\n  \"tokens\": {\n    \"account_id\": \"Acc 1\"\n  }\n}\n"
    );
}

#[test]
fn credentials_are_stored_and_noted() {
    let import = import_of(r#"{"tokens":{"account_id":"Acc 1"},"last_refresh":"then"}"#);
    assert_eq!(
        import.line(),
        "stored account=acc_1 email=- auth=/home/me/.codex/account-pool-rs/accounts/acc_1/auth.json"
    );
    let mut table = AccountTable { records: Vec::new() };
    let mut history: Vec<HistoryRow> = Vec::new();
    assert_eq!(
        perform(&mut table, &mut history, &import.note(), 8),
        Err(HistoryError::UnknownAccount)
    );
    assert!(table.records.is_empty() && history.is_empty());
    assert_eq!(perform(&mut table, &mut history, &import.action(), 9), Ok(()));
    assert_eq!(perform(&mut table, &mut history, &import.note(), 10), Ok(()));
    let row = &table.records[0].row;
    assert_eq!(row.account_key, "acc_1");
    assert_eq!(row.email, None);
    assert_eq!(row.account_id.as_deref(), Some("acc 1"));
    assert_eq!(row.auth_path, import.auth_path);
    assert_eq!(row.last_refresh.as_deref(), Some("then"));
    assert_eq!(history.len(), 1);
    assert_eq!(history[0].kind, "refresh");
    assert_eq!(history[0].message, "account imported into pool");
    assert!(history[0].ok && history[0].detail_json.is_none());
    assert_eq!(history[0].created_at, 10);
}

#[test]
fn a_switch_is_stored_and_noted() {
    let activation = Activation {
        account_key: "a".to_string(),
        auth_path: String::new(),
        line: String::new(),
    };
    let actions = activation.actions();
    assert_eq!(actions.len(), 2);
    assert!(matches!(actions[0], StoreAction::Switch { account_key: "a" }));
    match &actions[1] {
        StoreAction::History(event) => {
            assert_eq!(event.account_key, "a");
            assert_eq!(event.kind, HistoryKind::Switch);
            assert_eq!(event.message, "global auth switched");
            assert!(event.ok && event.detail_json.is_none());
        }
        _ => panic!("another action"),
    }
}

#[test]
fn messages_about_files() {
    let paths = home_paths();
    assert_eq!(
        missing_auth_message(&paths),
        "current auth not found at /home/me/.codex/auth.json"
    );
    assert_eq!(
        missing_legacy_message(&paths),
        "legacy pool not found at /home/me/.codex/account-pool/accounts"
    );
    assert_eq!(
        migrated_message(12, &paths),
        "migrated 12 accounts from /home/me/.codex/account-pool/accounts"
    );
    assert_eq!(
        daemon_running_message(&paths),
        "daemon already running: /home/me/.codex/account-pool-rs/daemon.lock"
    );
}

#[test]
fn files_of_an_older_pool() {
    assert!(is_legacy_auth(&PathBuf::from("/x/a.json")));
    assert!(is_legacy_auth(&PathBuf::from("a.b.json")));
    assert!(!is_legacy_auth(&PathBuf::from("/x/.json")));
    assert!(!is_legacy_auth(&PathBuf::from("/x/a.JSON")));
    assert!(!is_legacy_auth(&PathBuf::from("/x/json")));
    assert!(is_json_extension(Some("json")));
    assert!(!is_json_extension(Some("jso")));
    assert!(!is_json_extension(None));
}

#[test]
fn the_daemon() {
    assert_eq!(tick_message(0), None);
    assert_eq!(tick_message(3).as_deref(), Some("daemon tick: 3 accounts due"));
    assert_eq!(after_tick(true, 300), DaemonStep::Stop);
    assert_eq!(after_tick(false, 300), DaemonStep::Sleep(300));
    assert_eq!(after_tick(false, 30), DaemonStep::Sleep(30));
    assert_eq!(after_tick(false, 29), DaemonStep::Sleep(30));
}
