//! The commands of the pool: what each decides, stores and says.

use std::path::PathBuf;

use vstd::prelude::*;
use vstd::string::*;

use crate::auth;
use crate::auth::{account_key, auth_file_bytes, extract_meta, AuthMeta};
use crate::config;
use crate::config::{extension_of, show_path, Paths};
use crate::db;
use crate::db::{display_name, get_account_by_selector, AccountRow, AccountView};
use crate::db::{UpsertAccount, UpsertView};
use crate::db::{HistoryEvent, HistoryEventView, HistoryKind};
use crate::json;
use crate::json::Json;
use crate::refresh;
use crate::refresh::{choose_best, RefreshResult, RefreshView};
use crate::report;
use crate::report::{format_cached_row, is_row_showable, RowTimesView};
use crate::store;
use crate::store::{ActionView, StoreAction};
use crate::text;
use crate::text::{borrowed, digits_of, same_text};

verus! {

/// Two texts in a row.
fn joined(start: &str, end: &str) -> (text: String)
    ensures
        text@ == start@ + end@,
{
    let mut text = start.to_owned();
    text.append(end);
    text
}

/// Credentials on their way into the pool: whose they are, where they are kept,
/// and what the file will hold.
pub struct Import {
    pub meta: AuthMeta,
    pub account_key: String,
    pub account_dir: PathBuf,
    pub auth_file: PathBuf,
    pub auth_path: String,
    pub contents: Vec<u8>,
}

/// What is stored of credentials that come into the pool.
pub open spec fn import_update(import: Import) -> UpsertView {
    UpsertView {
        account_key: import.account_key@,
        email: import.meta@.email,
        account_id: import.meta@.account_id,
        auth_path: import.auth_path@,
        last_refresh: import.meta@.last_refresh,
    }
}

/// What is said of credentials that came into the pool.
pub open spec fn import_text(import: Import) -> Seq<char> {
    "stored account="@ + import.account_key@ + " email="@ + text::or_else(
        import.meta@.email,
        "-"@,
    ) + " auth="@ + import.auth_path@
}

/// Whether an import is that of an auth document: under the key that the
/// document gives, in a directory of its own, with the document as contents.
pub open spec fn imports(paths: Paths, auth: json::JsonView, import: Import) -> bool {
    let key = auth::key_view(auth::meta_of(auth));
    &&& import.meta@ == auth::meta_of(auth)
    &&& import.account_key@ == key
    &&& import.account_dir == config::joined_path(paths.accounts_dir, key)
    &&& import.auth_file == config::joined_path(import.account_dir, "auth.json"@)
    &&& config::path_components(import.auth_file) == config::auth_file_components(
        config::path_components(paths.accounts_dir),
        key,
    )
    &&& import.auth_path@ == config::shown_path(import.auth_file)
    &&& import.contents@ == json::json_pretty(auth).push(10)
}

/// Prepares credentials for the pool.
pub fn plan_import(paths: &Paths, auth: &Json) -> (import: Import)
    requires
        auth@.ordered(),
    ensures
        imports(*paths, auth@, import),
        auth@.integral() && auth@.within(127) ==> json::json_parsed(import.contents@)
            == json::read_as(auth@),
{
    let meta = extract_meta(auth);
    let account_key = account_key(&meta);
    proof {
        config::law_key_is_plain_name(meta@);
    }
    let account_dir = paths.account_dir(account_key.as_str());
    let auth_file = paths.account_auth_file(account_key.as_str());
    let auth_path = show_path(&auth_file);
    let contents = auth_file_bytes(auth);
    Import { meta, account_key, account_dir, auth_file, auth_path, contents }
}

impl Import {
    /// What is stored of the credentials.
    pub fn action<'a>(&'a self) -> (action: StoreAction<'a>)
        ensures
            action@ == ActionView::Import(import_update(*self)),
    {
        StoreAction::Import(
            UpsertAccount {
                account_key: self.account_key.as_str(),
                email: borrowed(&self.meta.email),
                account_id: borrowed(&self.meta.account_id),
                auth_path: self.auth_path.as_str(),
                last_refresh: borrowed(&self.meta.last_refresh),
            },
        )
    }

    /// What the history keeps of the credentials.
    pub fn note<'a>(&'a self) -> (action: StoreAction<'a>)
        ensures
            action@ == ActionView::History(
                HistoryEventView {
                    account_key: self.account_key@,
                    kind: HistoryKind::Refresh,
                    ok: true,
                    message: "account imported into pool"@,
                    detail_json: None,
                },
            ),
    {
        StoreAction::History(
            HistoryEvent {
                account_key: self.account_key.as_str(),
                kind: HistoryKind::Refresh,
                ok: true,
                message: "account imported into pool",
                detail_json: None,
            },
        )
    }

    /// What is said of the credentials.
    pub fn line(&self) -> (line: String)
        ensures
            line@ == import_text(*self),
    {
        let mut line = "stored account=".to_owned();
        line.append(self.account_key.as_str());
        line.append(" email=");
        line.append(
            match &self.meta.email {
                Some(email) => email.as_str(),
                None => "-",
            },
        );
        line.append(" auth=");
        line.append(self.auth_path.as_str());
        line
    }
}

/// What is said where there are no credentials to bring into the pool.
pub fn missing_auth_message(paths: &Paths) -> (message: String)
    ensures
        message@ == "current auth not found at "@ + config::shown_path(paths.global_auth_file),
{
    joined("current auth not found at ", show_path(&paths.global_auth_file).as_str())
}

/// What is said where there is no older pool to take accounts from.
pub fn missing_legacy_message(paths: &Paths) -> (message: String)
    ensures
        message@ == "legacy pool not found at "@ + config::shown_path(paths.legacy_accounts_dir),
{
    joined("legacy pool not found at ", show_path(&paths.legacy_accounts_dir).as_str())
}

/// Whether the extension of a file is that of an auth document.
pub fn is_json_extension(extension: Option<&str>) -> (yes: bool)
    ensures
        yes == (extension.deep_view() == Some("json"@)),
{
    match extension {
        Some(extension) => same_text(extension, "json"),
        None => false,
    }
}

/// Whether a file of an older pool holds an auth document.
pub fn is_legacy_auth(path: &PathBuf) -> (yes: bool)
    ensures
        yes == (config::path_extension(*path) == Some("json"@)),
{
    let extension = extension_of(path);
    is_json_extension(borrowed(&extension))
}

/// What is said once the accounts of an older pool have been taken over.
pub fn migrated_message(imported: usize, paths: &Paths) -> (message: String)
    ensures
        message@ == "migrated "@ + text::digits(imported as nat) + " accounts from "@
            + config::shown_path(paths.legacy_accounts_dir),
{
    let mut message = joined("migrated ", digits_of(imported as u64).as_str());
    message.append(" accounts from ");
    message.append(show_path(&paths.legacy_accounts_dir).as_str());
    message
}

/// Whether a line tells of the account at a place in the list, at a reading of
/// the clock and as `chrono` shows its moments.
pub open spec fn tells_of(rows: Seq<AccountView>, place: int, line: Seq<char>) -> bool {
    exists|now: i64, times: RowTimesView|
        db::is_present(now) && report::times_show(rows[place], times) && line
            == #[trigger] report::cached_text(
            (place + 1) as nat,
            rows.len(),
            rows[place],
            now,
            times,
        )
}

/// The line about the account at a place in the list.
fn list_line(rows: &Vec<AccountRow>, place: usize) -> (line: String)
    requires
        place < rows@.len(),
        report::row_showable(rows@[place as int]@),
    ensures
        tells_of(db::rows_view(rows@), place as int, line@),
{
    let total: usize = rows.len();
    let row = &rows[place];
    let ghost all = db::rows_view(rows@);
    assert(all[place as int] == row@);
    let line = format_cached_row(place + 1, total, row);
    proof {
        let number = (place + 1) as nat;
        let (now, times) = choose|now: i64, times: RowTimesView|
            db::is_present(now) && report::times_show(row@, times) && line@
                == #[trigger] report::cached_text(number, all.len(), row@, now, times);
        assert(line@ == report::cached_text(number, all.len(), row@, now, times));
    }
    line
}

/// The list of the accounts, a line each, up to the first one that cannot be
/// shown; or a line that says that there are none.
pub fn list_lines(rows: &Vec<AccountRow>) -> (lines: Vec<String>)
    ensures
        rows@.len() == 0 ==> lines.deep_view() == seq!["account pool is empty; run `add` first"@],
        rows@.len() > 0 ==> lines@.len() <= rows@.len(),
        rows@.len() > 0 ==> forall|i: int|
            0 <= i < lines@.len() ==> report::row_showable(#[trigger] rows@[i]@),
        rows@.len() > 0 ==> forall|i: int|
            0 <= i < lines@.len() ==> tells_of(db::rows_view(rows@), i, #[trigger] lines@[i]@),
        rows@.len() > 0 && lines@.len() < rows@.len() ==> !report::row_showable(
            rows@[lines@.len() as int]@,
        ),
{
    let mut lines: Vec<String> = Vec::new();
    if rows.len() == 0 {
        lines.push("account pool is empty; run `add` first".to_owned());
        assert(lines.deep_view() =~= seq!["account pool is empty; run `add` first"@]);
        return lines;
    }
    for i in 0..rows.len()
        invariant
            lines@.len() == i,
            forall|j: int| 0 <= j < i ==> report::row_showable(#[trigger] rows@[j]@),
            forall|j: int|
                0 <= j < i ==> tells_of(db::rows_view(rows@), j, #[trigger] lines@[j]@),
    {
        if !is_row_showable(&rows[i]) {
            return lines;
        }
        let line = list_line(rows, i);
        lines.push(line);
    }
    lines
}

/// What is said where there is nothing to refresh.
pub fn nothing_matched(rows: &Vec<AccountRow>) -> (message: Option<&'static str>)
    ensures
        message.deep_view() == (if rows@.len() == 0 {
            Some("no accounts matched"@)
        } else {
            None
        }),
{
    if rows.len() == 0 {
        Some("no accounts matched")
    } else {
        None
    }
}

/// An account that becomes the active one, and what is said of it.
pub struct Activation {
    pub account_key: String,
    pub auth_path: String,
    pub line: String,
}

/// What an `Activation` says.
#[verifier::ext_equal]
pub struct ActivationView {
    pub account_key: Seq<char>,
    pub auth_path: Seq<char>,
    pub line: Seq<char>,
}

impl View for Activation {
    type V = ActivationView;

    open spec fn view(&self) -> ActivationView {
        ActivationView {
            account_key: self.account_key@,
            auth_path: self.auth_path@,
            line: self.line@,
        }
    }
}

/// The account of a refresh as the active one.
pub open spec fn selection(result: RefreshView) -> ActivationView {
    ActivationView {
        account_key: result.account_key,
        auth_path: result.auth_path,
        line: "\nselected: "@ + text::or_else(result.email, result.account_key),
    }
}

/// The best of the accounts that were refreshed, as the active one; else what
/// is said where none of them is usable.
pub fn auto_choice(results: &Vec<RefreshResult>) -> (choice: Result<Activation, &'static str>)
    ensures
        choice matches Ok(activation) ==> exists|best: int|
            #![trigger refresh::is_best(refresh::results_view(results@), best)]
            refresh::is_best(refresh::results_view(results@), best) && activation@ == selection(
                refresh::results_view(results@)[best],
            ),
        choice matches Err(line) ==> line@ == "\nno usable account found"@ && forall|i: int|
            0 <= i < results@.len() ==> !refresh::usable(
                #[trigger] refresh::results_view(results@)[i],
            ),
{
    match choose_best(results) {
        Some(best) => {
            let result = &results[best];
            assert(refresh::results_view(results@)[best as int] == result@);
            let name = match &result.email {
                Some(email) => email.as_str(),
                None => result.account_key.as_str(),
            };
            let activation = Activation {
                account_key: result.account_key.clone(),
                auth_path: result.auth_path.clone(),
                line: joined("\nselected: ", name),
            };
            assert(activation@ == selection(refresh::results_view(results@)[best as int]));
            Ok(activation)
        },
        None => Err("\nno usable account found"),
    }
}

/// An account that was asked for as the active one.
pub open spec fn switch_to(row: AccountView) -> ActivationView {
    ActivationView {
        account_key: row.account_key,
        auth_path: row.auth_path,
        line: "switched to "@ + db::listed_name(row),
    }
}

/// The account that a selector picks, as the active one; else what is said
/// where it picks none.
pub fn use_choice(all: &Vec<AccountRow>, selector: &str) -> (choice: Result<Activation, String>)
    ensures
        choice is Ok <==> db::selected(db::rows_view(all@), selector@) is Some,
        choice matches Ok(activation) ==> activation@ == switch_to(
            db::selected(db::rows_view(all@), selector@)->0,
        ),
        choice matches Err(message) ==> message@ == "account not found: "@ + selector@,
{
    match get_account_by_selector(all, selector) {
        Some(row) => {
            let line = joined("switched to ", display_name(&row));
            Ok(Activation { account_key: row.account_key, auth_path: row.auth_path, line })
        },
        None => Err(joined("account not found: ", selector)),
    }
}

/// What is stored once an account is the active one.
pub open spec fn switch_actions(key: Seq<char>) -> Seq<ActionView> {
    seq![
        ActionView::Switch { account_key: key },
        ActionView::History(
            HistoryEventView {
                account_key: key,
                kind: HistoryKind::Switch,
                ok: true,
                message: "global auth switched"@,
                detail_json: None,
            },
        ),
    ]
}

impl Activation {
    /// What is stored once the account is the active one.
    pub fn actions<'a>(&'a self) -> (actions: Vec<StoreAction<'a>>)
        ensures
            store::actions_view(actions@) == switch_actions(self@.account_key),
    {
        let mut actions: Vec<StoreAction<'a>> = Vec::new();
        actions.push(StoreAction::Switch { account_key: self.account_key.as_str() });
        actions.push(
            StoreAction::History(
                HistoryEvent {
                    account_key: self.account_key.as_str(),
                    kind: HistoryKind::Switch,
                    ok: true,
                    message: "global auth switched",
                    detail_json: None,
                },
            ),
        );
        assert(store::actions_view(actions@) =~= switch_actions(self@.account_key));
        actions
    }
}

/// What is said where a daemon is running already.
pub fn daemon_running_message(paths: &Paths) -> (message: String)
    ensures
        message@ == "daemon already running: "@ + config::shown_path(paths.daemon_lock_path),
{
    joined("daemon already running: ", show_path(&paths.daemon_lock_path).as_str())
}

/// What is said before the accounts that are due are refreshed, if there are
/// any.
pub fn tick_message(due: usize) -> (message: Option<String>)
    ensures
        message.deep_view() == (if due == 0 {
            None
        } else {
            Some("daemon tick: "@ + text::digits(due as nat) + " accounts due"@)
        }),
{
    if due == 0 {
        None
    } else {
        let mut message = joined("daemon tick: ", digits_of(due as u64).as_str());
        message.append(" accounts due");
        Some(message)
    }
}

/// What the daemon does after it has looked after the accounts.
#[derive(Debug, Clone, Copy, PartialEq, Eq, Structural)]
pub enum DaemonStep {
    Stop,
    /// Sleep for some seconds and look again.
    Sleep(u64),
}

/// What the daemon does after it has looked after the accounts.
pub open spec fn daemon_step(once: bool, interval: u64) -> DaemonStep {
    if once {
        DaemonStep::Stop
    } else if interval < 30 {
        DaemonStep::Sleep(30)
    } else {
        DaemonStep::Sleep(interval)
    }
}

/// The daemon stops where it was to look once. Else it sleeps half a minute at
/// least, and never less or more than it was told where it was told that much.
pub proof fn law_daemon_rests(once: bool, interval: u64)
    ensures
        once <==> daemon_step(once, interval) is Stop,
        !once ==> daemon_step(once, interval)->Sleep_0 >= 30,
        !once && interval >= 30 ==> daemon_step(once, interval)->Sleep_0 == interval,
        !once && interval <= 30 ==> daemon_step(once, interval)->Sleep_0 == 30,
{
}

/// What the daemon does after it has looked after the accounts: it sleeps for
/// as long as it was told, but for half a minute at least.
pub fn after_tick(once: bool, interval: u64) -> (step: DaemonStep)
    ensures
        step == daemon_step(once, interval),
        once ==> step == DaemonStep::Stop,
        !once ==> step == DaemonStep::Sleep(
            if interval < 30 {
                30
            } else {
                interval
            },
        ),
{
    if once {
        DaemonStep::Stop
    } else if interval < 30 {
        DaemonStep::Sleep(30)
    } else {
        DaemonStep::Sleep(interval)
    }
}

} // verus!
