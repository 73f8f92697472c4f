use std::path::PathBuf;

use codex_pool::config::{plan_write, temp_file_name, ConfigError, Paths};
use codex_pool::locks::{is_held_elsewhere, lock_message, LockFault};

fn home_paths() -> Paths {
    match Paths::discover(Some(PathBuf::from("/home/me"))) {
        Ok(paths) => paths,
        Err(error) => panic!("{}", error.message()),
    }
}

#[test]
fn the_pool_lies_below_the_home_directory() {
    let paths = home_paths();
    assert_eq!(paths.global_auth_file, PathBuf::from("/home/me/.codex/auth.json"));
    assert_eq!(paths.service_root, PathBuf::from("/home/me/.codex/account-pool-rs"));
    assert_eq!(paths.accounts_dir, PathBuf::from("/home/me/.codex/account-pool-rs/accounts"));
    assert_eq!(paths.db_path, PathBuf::from("/home/me/.codex/account-pool-rs/state.db"));
    assert_eq!(paths.lock_path, PathBuf::from("/home/me/.codex/account-pool-rs/auth.switch.lock"));
    assert_eq!(paths.daemon_lock_path, PathBuf::from("/home/me/.codex/account-pool-rs/daemon.lock"));
    assert_eq!(paths.locks_dir, PathBuf::from("/home/me/.codex/account-pool-rs/locks"));
    assert_eq!(
        paths.legacy_accounts_dir,
        PathBuf::from("/home/me/.codex/account-pool/accounts")
    );
}

#[test]
fn copies_of_paths() {
    let paths = home_paths();
    let copy = paths.clone();
    assert_eq!(copy.global_auth_file, paths.global_auth_file);
    assert_eq!(copy.locks_dir, paths.locks_dir);
}

#[test]
fn without_a_home_directory_there_is_no_pool() {
    match Paths::discover(None) {
        Ok(_) => panic!("accepted"),
        Err(error) => {
            assert_eq!(error, ConfigError::HomeNotSet);
            assert_eq!(error.message(), "HOME is not set");
        }
    }
}

#[test]
fn directories_that_have_to_exist() {
    let paths = home_paths();
    let dirs = paths.layout_dirs();
    assert_eq!(dirs, vec![&paths.service_root, &paths.accounts_dir, &paths.locks_dir]);
}

#[test]
fn files_of_an_account() {
    let paths = home_paths();
    assert_eq!(paths.account_dir("a@b"), paths.accounts_dir.join("a@b"));
    assert_eq!(
        paths.account_auth_file("a@b"),
        PathBuf::from("/home/me/.codex/account-pool-rs/accounts/a@b/auth.json")
    );
    assert_eq!(
        paths.account_lock_file("a@b"),
        PathBuf::from("/home/me/.codex/account-pool-rs/locks/a@b.lock")
    );
}

#[test]
fn accounts_share_no_files() {
    let paths = home_paths();
    assert_ne!(paths.account_auth_file("a"), paths.account_auth_file("b"));
    assert_ne!(paths.account_lock_file("a"), paths.account_lock_file("b"));
}

#[test]
fn names_of_files_under_preparation() {
    assert_eq!(temp_file_name(Some("auth.json"), 4711), ".auth.json.tmp.4711");
    assert_eq!(temp_file_name(None, 0), ".file.tmp.0");
}

#[test]
fn a_file_is_prepared_beside_the_old_one() {
    let plan = plan_write(&PathBuf::from("/a/b/auth.json"), 12).unwrap();
    assert_eq!(plan.parent, PathBuf::from("/a/b"));
    assert_eq!(plan.temp, PathBuf::from("/a/b/.auth.json.tmp.12"));
    let plan = plan_write(&PathBuf::from("/a/.."), 12).unwrap();
    assert_eq!(plan.temp, PathBuf::from("/a/.file.tmp.12"));
    assert!(plan_write(&PathBuf::from("/"), 12).is_none());
    assert!(plan_write(&PathBuf::from(""), 12).is_none());
}

#[test]
fn what_is_said_of_locks() {
    let path = PathBuf::from("/x/y.lock");
    let refused = |would_block: bool| LockFault::Refused { would_block, error: "no" };
    assert_eq!(lock_message(&path, true, LockFault::Open), "open lock /x/y.lock");
    assert_eq!(lock_message(&path, true, refused(true)), "already locked: /x/y.lock");
    assert_eq!(lock_message(&path, true, refused(false)), "failed to lock /x/y.lock: no");
    assert_eq!(lock_message(&path, false, refused(true)), "failed to lock /x/y.lock: no");
}

#[test]
fn a_held_lock_is_told_by_its_message() {
    let path = PathBuf::from("/x");
    let held = lock_message(&path, true, LockFault::Refused { would_block: true, error: "" });
    assert!(is_held_elsewhere(&held));
    assert!(is_held_elsewhere("ä already locked"));
    assert!(!is_held_elsewhere("already"));
    assert!(!is_held_elsewhere("failed to lock /x: already  locked"));
    assert!(!is_held_elsewhere(""));
    let other = LockFault::Refused { would_block: false, error: "already" };
    assert!(!is_held_elsewhere(&lock_message(&path, true, other)));
    let waited = LockFault::Refused { would_block: true, error: "no locks available" };
    assert!(!is_held_elsewhere(&lock_message(&path, false, waited)));
    assert!(!is_held_elsewhere(&lock_message(&path, true, LockFault::Open)));
}
