//! The accounts of the pool as they are stored, and what each event does to
//! them.

use vstd::prelude::*;
use vstd::string::*;

use crate::text;
use crate::text::{normalize_text, same_text, text_before};

verus! {

/// An account as it is stored.
#[derive(Debug)]
pub struct AccountRow {
    pub account_key: String,
    pub email: Option<String>,
    pub account_id: Option<String>,
    pub auth_path: String,
    pub last_refresh: Option<String>,
    pub last_refresh_ok_at: Option<i64>,
    pub refresh_fail_count: i64,
    pub last_probe_at: Option<i64>,
    pub last_probe_ok_at: Option<i64>,
    pub probe_fail_count: i64,
    pub last_error: Option<String>,
    pub plan: Option<String>,
    pub primary_used_percent: Option<i64>,
    pub secondary_used_percent: Option<i64>,
    pub primary_resets_at: Option<i64>,
    pub credits_has_credits: Option<bool>,
    pub credits_unlimited: Option<bool>,
    pub snapshot_updated_at: Option<i64>,
    pub cooldown_until: Option<i64>,
    pub next_refresh_due_at: Option<i64>,
    pub next_probe_due_at: Option<i64>,
    pub last_switched_at: Option<i64>,
    pub last_error_kind: Option<String>,
}

/// What a stored account says.
#[verifier::ext_equal]
pub struct AccountView {
    pub account_key: Seq<char>,
    pub email: Option<Seq<char>>,
    pub account_id: Option<Seq<char>>,
    pub auth_path: Seq<char>,
    pub last_refresh: Option<Seq<char>>,
    pub last_refresh_ok_at: Option<i64>,
    pub refresh_fail_count: i64,
    pub last_probe_at: Option<i64>,
    pub last_probe_ok_at: Option<i64>,
    pub probe_fail_count: i64,
    pub last_error: Option<Seq<char>>,
    pub plan: Option<Seq<char>>,
    pub primary_used_percent: Option<i64>,
    pub secondary_used_percent: Option<i64>,
    pub primary_resets_at: Option<i64>,
    pub credits_has_credits: Option<bool>,
    pub credits_unlimited: Option<bool>,
    pub snapshot_updated_at: Option<i64>,
    pub cooldown_until: Option<i64>,
    pub next_refresh_due_at: Option<i64>,
    pub next_probe_due_at: Option<i64>,
    pub last_switched_at: Option<i64>,
    pub last_error_kind: Option<Seq<char>>,
}

impl View for AccountRow {
    type V = AccountView;

    open spec fn view(&self) -> AccountView {
        AccountView {
            account_key: self.account_key@,
            email: self.email.deep_view(),
            account_id: self.account_id.deep_view(),
            auth_path: self.auth_path@,
            last_refresh: self.last_refresh.deep_view(),
            last_refresh_ok_at: self.last_refresh_ok_at,
            refresh_fail_count: self.refresh_fail_count,
            last_probe_at: self.last_probe_at,
            last_probe_ok_at: self.last_probe_ok_at,
            probe_fail_count: self.probe_fail_count,
            last_error: self.last_error.deep_view(),
            plan: self.plan.deep_view(),
            primary_used_percent: self.primary_used_percent,
            secondary_used_percent: self.secondary_used_percent,
            primary_resets_at: self.primary_resets_at,
            credits_has_credits: self.credits_has_credits,
            credits_unlimited: self.credits_unlimited,
            snapshot_updated_at: self.snapshot_updated_at,
            cooldown_until: self.cooldown_until,
            next_refresh_due_at: self.next_refresh_due_at,
            next_probe_due_at: self.next_probe_due_at,
            last_switched_at: self.last_switched_at,
            last_error_kind: self.last_error_kind.deep_view(),
        }
    }
}

impl Clone for AccountRow {
    fn clone(&self) -> (copy: Self)
        ensures
            copy@ == self@,
    {
        AccountRow {
            account_key: self.account_key.clone(),
            email: self.email.clone(),
            account_id: self.account_id.clone(),
            auth_path: self.auth_path.clone(),
            last_refresh: self.last_refresh.clone(),
            last_refresh_ok_at: self.last_refresh_ok_at,
            refresh_fail_count: self.refresh_fail_count,
            last_probe_at: self.last_probe_at,
            last_probe_ok_at: self.last_probe_ok_at,
            probe_fail_count: self.probe_fail_count,
            last_error: self.last_error.clone(),
            plan: self.plan.clone(),
            primary_used_percent: self.primary_used_percent,
            secondary_used_percent: self.secondary_used_percent,
            primary_resets_at: self.primary_resets_at,
            credits_has_credits: self.credits_has_credits,
            credits_unlimited: self.credits_unlimited,
            snapshot_updated_at: self.snapshot_updated_at,
            cooldown_until: self.cooldown_until,
            next_refresh_due_at: self.next_refresh_due_at,
            next_probe_due_at: self.next_probe_due_at,
            last_switched_at: self.last_switched_at,
            last_error_kind: self.last_error_kind.clone(),
        }
    }
}

/// What the rows of a table say.
pub open spec fn rows_view(rows: Seq<AccountRow>) -> Seq<AccountView> {
    rows.map_values(|row: AccountRow| row@)
}

/// Credentials that come into the pool.
#[derive(Debug, Clone, Copy)]
pub struct UpsertAccount<'a> {
    pub account_key: &'a str,
    pub email: Option<&'a str>,
    pub account_id: Option<&'a str>,
    pub auth_path: &'a str,
    pub last_refresh: Option<&'a str>,
}

/// What an `UpsertAccount` says.
#[verifier::ext_equal]
pub struct UpsertView {
    pub account_key: Seq<char>,
    pub email: Option<Seq<char>>,
    pub account_id: Option<Seq<char>>,
    pub auth_path: Seq<char>,
    pub last_refresh: Option<Seq<char>>,
}

impl<'a> View for UpsertAccount<'a> {
    type V = UpsertView;

    open spec fn view(&self) -> UpsertView {
        UpsertView {
            account_key: self.account_key@,
            email: self.email.deep_view(),
            account_id: self.account_id.deep_view(),
            auth_path: self.auth_path@,
            last_refresh: self.last_refresh.deep_view(),
        }
    }
}

/// What a probe of an account came to.
#[derive(Debug, Clone, Copy)]
pub struct ProbeUpdate<'a> {
    pub account_key: &'a str,
    pub ok: bool,
    pub error: Option<&'a str>,
    pub plan: Option<&'a str>,
    pub primary_used_percent: Option<i64>,
    pub secondary_used_percent: Option<i64>,
    pub primary_resets_at: Option<i64>,
    pub credits_has_credits: Option<bool>,
    pub credits_unlimited: Option<bool>,
    pub observed_last_refresh: Option<&'a str>,
    pub next_probe_due_at: i64,
    pub next_refresh_due_at: i64,
    pub cooldown_until: Option<i64>,
    pub error_kind: Option<&'a str>,
}

/// What a `ProbeUpdate` says.
#[verifier::ext_equal]
pub struct ProbeUpdateView {
    pub account_key: Seq<char>,
    pub ok: bool,
    pub error: Option<Seq<char>>,
    pub plan: Option<Seq<char>>,
    pub primary_used_percent: Option<i64>,
    pub secondary_used_percent: Option<i64>,
    pub primary_resets_at: Option<i64>,
    pub credits_has_credits: Option<bool>,
    pub credits_unlimited: Option<bool>,
    pub observed_last_refresh: Option<Seq<char>>,
    pub next_probe_due_at: i64,
    pub next_refresh_due_at: i64,
    pub cooldown_until: Option<i64>,
    pub error_kind: Option<Seq<char>>,
}

impl<'a> View for ProbeUpdate<'a> {
    type V = ProbeUpdateView;

    open spec fn view(&self) -> ProbeUpdateView {
        ProbeUpdateView {
            account_key: self.account_key@,
            ok: self.ok,
            error: self.error.deep_view(),
            plan: self.plan.deep_view(),
            primary_used_percent: self.primary_used_percent,
            secondary_used_percent: self.secondary_used_percent,
            primary_resets_at: self.primary_resets_at,
            credits_has_credits: self.credits_has_credits,
            credits_unlimited: self.credits_unlimited,
            observed_last_refresh: self.observed_last_refresh.deep_view(),
            next_probe_due_at: self.next_probe_due_at,
            next_refresh_due_at: self.next_refresh_due_at,
            cooldown_until: self.cooldown_until,
            error_kind: self.error_kind.deep_view(),
        }
    }
}

/// What an entry in the history is about.
#[derive(Debug, Clone, Copy, PartialEq, Eq, Structural)]
pub enum HistoryKind {
    Probe,
    Refresh,
    Switch,
}

impl HistoryKind {
    /// The word that stands for the kind.
    pub open spec fn word(self) -> Seq<char> {
        match self {
            HistoryKind::Probe => "probe"@,
            HistoryKind::Refresh => "refresh"@,
            HistoryKind::Switch => "switch"@,
        }
    }

    /// The word that stands for the kind.
    pub fn as_str(self) -> (word: &'static str)
        ensures
            word@ == self.word(),
    {
        match self {
            HistoryKind::Probe => "probe",
            HistoryKind::Refresh => "refresh",
            HistoryKind::Switch => "switch",
        }
    }
}

/// An entry for the history.
#[derive(Debug, Clone, Copy)]
pub struct HistoryEvent<'a> {
    pub account_key: &'a str,
    pub kind: HistoryKind,
    pub ok: bool,
    pub message: &'a str,
    pub detail_json: Option<&'a str>,
}

/// What a `HistoryEvent` says.
#[verifier::ext_equal]
pub struct HistoryEventView {
    pub account_key: Seq<char>,
    pub kind: HistoryKind,
    pub ok: bool,
    pub message: Seq<char>,
    pub detail_json: Option<Seq<char>>,
}

impl<'a> View for HistoryEvent<'a> {
    type V = HistoryEventView;

    open spec fn view(&self) -> HistoryEventView {
        HistoryEventView {
            account_key: self.account_key@,
            kind: self.kind,
            ok: self.ok,
            message: self.message@,
            detail_json: self.detail_json.deep_view(),
        }
    }
}

/// The name under which an account is listed: its email, or else its key.
pub open spec fn listed_name(row: AccountView) -> Seq<char> {
    text::or_else(row.email, row.account_key)
}

/// The name under which an account is listed.
pub fn display_name(row: &AccountRow) -> (name: &str)
    ensures
        name@ == listed_name(row@),
{
    match &row.email {
        Some(email) => email.as_str(),
        None => row.account_key.as_str(),
    }
}

/// The number that a text writes in decimal digits, with or without a plus sign
/// in front.
pub open spec fn written_number(s: Seq<char>) -> Option<nat> {
    let body = if s.len() > 0 && s[0] == '+' {
        s.drop_first()
    } else {
        s
    };
    if body.len() > 0 && all_digits(body) {
        Some(digits_value(body))
    } else {
        None
    }
}

/// Whether a text consists of decimal digits.
pub open spec fn all_digits(s: Seq<char>) -> bool {
    forall|i: int| 0 <= i < s.len() ==> '0' <= #[trigger] s[i] <= '9'
}

/// The number that decimal digits write.
pub open spec fn digits_value(s: Seq<char>) -> nat
    decreases s.len(),
{
    if s.len() == 0 {
        0
    } else {
        digits_value(s.drop_last()) * 10 + (s.last() as nat - '0' as nat) as nat
    }
}

/// Longer digits write a number that is at least as large.
proof fn lemma_digits_grow(s: Seq<char>, i: int)
    requires
        all_digits(s),
        0 <= i <= s.len(),
    ensures
        digits_value(s.take(i)) <= digits_value(s),
    decreases s.len() - i,
{
    if i == s.len() {
        assert(s.take(i) =~= s);
    } else {
        lemma_digits_grow(s, i + 1);
        assert(s.take(i + 1).drop_last() =~= s.take(i));
    }
}

/// Reads a number, if a text writes one and `usize` holds it.
pub fn parse_index(s: &str) -> (number: Option<usize>)
    ensures
        number matches Some(n) ==> written_number(s@) == Some(n as nat),
        number is None ==> (written_number(s@) matches Some(n) ==> n > usize::MAX),
{
    let chars = text::chars_of(s);
    let length: usize = chars.len();
    let from: usize = if length > 0 && chars[0] == '+' {
        1
    } else {
        0
    };
    let ghost body = s@.skip(from as int);
    assert(from == 1 ==> body =~= s@.drop_first());
    assert(from == 0 ==> body =~= s@);
    if from == length {
        return None;
    }
    let mut value: usize = 0;
    for i in from..length
        invariant
            from <= 1,
            from < length,
            length == chars@.len(),
            chars@ == s@,
            body == s@.skip(from as int),
            written_number(s@) == (if body.len() > 0 && all_digits(body) {
                Some(digits_value(body))
            } else {
                None
            }),
            forall|j: int| 0 <= j < i - from ==> '0' <= #[trigger] body[j] <= '9',
            value == digits_value(body.take(i - from)),
    {
        let c = chars[i];
        assert(c == body[i - from]);
        if c < '0' || '9' < c {
            return None;
        }
        proof {
            assert(body.take(i - from + 1).drop_last() =~= body.take(i - from));
            if all_digits(body) {
                lemma_digits_grow(body, i - from + 1);
            }
        }
        let digit: usize = (c as u32 - '0' as u32) as usize;
        if value > (usize::MAX - digit) / 10 {
            return None;
        }
        value = value * 10 + digit;
    }
    assert(body.take(length - from) =~= body);
    Some(value)
}

/// Whether an account bears a name as its key or as its email.
pub open spec fn bears_name(row: AccountView, name: Seq<char>) -> bool {
    row.account_key == name || row.email == Some(name)
}

/// The first account that bears a name.
pub open spec fn first_named(rows: Seq<AccountView>, name: Seq<char>) -> Option<AccountView>
    decreases rows.len(),
{
    if rows.len() == 0 {
        None
    } else if bears_name(rows[0], name) {
        Some(rows[0])
    } else {
        first_named(rows.drop_first(), name)
    }
}

/// The account that a selector picks: by its place in the list, counted from
/// one, or else by its key or email.
pub open spec fn selected(rows: Seq<AccountView>, selector: Seq<char>) -> Option<AccountView> {
    match written_number(selector) {
        Some(n) if 1 <= n <= rows.len() => Some(rows[n - 1]),
        _ => first_named(rows, text::normalized(selector)),
    }
}

/// What an account that may be missing says.
pub open spec fn row_view(row: Option<AccountRow>) -> Option<AccountView> {
    match row {
        Some(row) => Some(row@),
        None => None,
    }
}

/// The account that a selector picks from the list.
pub fn get_account_by_selector(all: &Vec<AccountRow>, selector: &str) -> (row: Option<AccountRow>)
    ensures
        row_view(row) == selected(rows_view(all@), selector@),
{
    let ghost rows = rows_view(all@);
    let length: usize = all.len();
    if let Some(index) = parse_index(selector) {
        if 1 <= index && index <= length {
            assert(rows[index - 1] == all@[index - 1]@);
            return Some(all[index - 1].clone());
        }
    }
    let name = normalize_text(selector);
    assert(rows.skip(0) =~= rows);
    for i in 0..length
        invariant
            length == all@.len(),
            rows == rows_view(all@),
            name@ == text::normalized(selector@),
            selected(rows, selector@) == first_named(rows.skip(i as int), name@),
    {
        assert(rows.skip(i as int)[0] == all@[i as int]@);
        assert(rows.skip(i as int).drop_first() =~= rows.skip(i + 1));
        if same_text(all[i].account_key.as_str(), name.as_str()) {
            return Some(all[i].clone());
        }
        if let Some(email) = &all[i].email {
            if same_text(email.as_str(), name.as_str()) {
                return Some(all[i].clone());
            }
        }
    }
    None
}

/// A number in decimal reads as that number.
proof fn lemma_digits_read(n: nat)
    ensures
        text::digits(n).len() > 0,
        all_digits(text::digits(n)),
        digits_value(text::digits(n)) == n,
    decreases n,
{
    reveal_with_fuel(digits_value, 2);
    let written = text::digits(n);
    if n < 10 {
        assert(written.drop_last() =~= Seq::<char>::empty());
    } else {
        lemma_digits_read(n / 10);
        assert(written.drop_last() =~= text::digits(n / 10));
        assert forall|i: int| 0 <= i < written.len() implies '0' <= #[trigger] written[i]
            <= '9' by {
            if i < written.len() - 1 {
                assert(written[i] == text::digits(n / 10)[i]);
            }
        }
    }
}

/// Every account is picked by its place in the list, counted from one.
pub proof fn law_selected_by_place(rows: Seq<AccountView>, place: nat)
    requires
        1 <= place <= rows.len(),
    ensures
        selected(rows, text::digits(place)) == Some(rows[place - 1]),
{
    lemma_digits_read(place);
    let written = text::digits(place);
    assert(written[0] != '+');
}

/// What is found under a name.
proof fn lemma_first_named(rows: Seq<AccountView>, name: Seq<char>)
    ensures
        first_named(rows, name) matches Some(row) ==> rows.contains(row) && bears_name(row, name),
        first_named(rows, name) is None ==> forall|i: int|
            0 <= i < rows.len() ==> !bears_name(#[trigger] rows[i], name),
    decreases rows.len(),
{
    if rows.len() > 0 && !bears_name(rows[0], name) {
        let rest = rows.drop_first();
        lemma_first_named(rest, name);
        if let Some(row) = first_named(rest, name) {
            let i = choose|i: int| 0 <= i < rest.len() && rest[i] == row;
            assert(rows[i + 1] == row);
        } else {
            assert forall|i: int| 0 <= i < rows.len() implies !bears_name(
                #[trigger] rows[i],
                name,
            ) by {
                if i > 0 {
                    assert(rows[i] == rest[i - 1]);
                }
            }
        }
    }
}

/// A selector that is not a place in the list picks an account that bears the
/// name, in ASCII lower case and without white space around it, as its key or
/// its email; it picks none only where no account bears it.
pub proof fn law_selected_by_name(rows: Seq<AccountView>, selector: Seq<char>)
    requires
        written_number(selector) matches Some(n) ==> !(1 <= n <= rows.len()),
    ensures
        selected(rows, selector) matches Some(row) ==> rows.contains(row) && bears_name(
            row,
            text::normalized(selector),
        ),
        selected(rows, selector) is None ==> forall|i: int|
            0 <= i < rows.len() ==> !bears_name(#[trigger] rows[i], text::normalized(selector)),
{
    lemma_first_named(rows, text::normalized(selector));
}

/// An email picks an account whatever its case and the white space around it,
/// where the pool keeps it as it keeps every email: normalized.
pub proof fn law_selected_by_email(rows: Seq<AccountView>, i: int, email: Seq<char>)
    requires
        0 <= i < rows.len(),
        rows[i].email == Some(text::normalized(email)),
        written_number(email) matches Some(n) ==> !(1 <= n <= rows.len()),
    ensures
        selected(rows, email) matches Some(row) && bears_name(row, text::normalized(email)),
{
    law_selected_by_name(rows, email);
    assert(bears_name(rows[i], text::normalized(email)));
}

/// A key picks an account, where it is normalized as every key is that the pool
/// makes.
pub proof fn law_selected_by_key(rows: Seq<AccountView>, i: int)
    requires
        0 <= i < rows.len(),
        text::normalized(rows[i].account_key) == rows[i].account_key,
        written_number(rows[i].account_key) matches Some(n) ==> !(1 <= n <= rows.len()),
    ensures
        selected(rows, rows[i].account_key) matches Some(row) && bears_name(
            row,
            rows[i].account_key,
        ),
{
    law_selected_by_name(rows, rows[i].account_key);
    assert(bears_name(rows[i], rows[i].account_key));
}

/// The accounts that a command is about: the one that a selector picks, or all
/// where there is no selector.
pub open spec fn chosen_rows(rows: Seq<AccountView>, selector: Option<Seq<char>>) -> Seq<
    AccountView,
> {
    match selector {
        None => rows,
        Some(selector) => match selected(rows, selector) {
            Some(row) => seq![row],
            None => Seq::empty(),
        },
    }
}

/// The accounts that a command is about.
pub fn select_rows(all: Vec<AccountRow>, selector: Option<&str>) -> (rows: Vec<AccountRow>)
    ensures
        rows_view(rows@) == chosen_rows(rows_view(all@), selector.deep_view()),
{
    match selector {
        None => all,
        Some(selector) => {
            let mut rows: Vec<AccountRow> = Vec::new();
            if let Some(row) = get_account_by_selector(&all, selector) {
                rows.push(row);
            }
            assert(rows_view(rows@) =~= chosen_rows(rows_view(all@), Some(selector@)));
            rows
        },
    }
}

/// Whether a moment that may not have been set has come.
pub open spec fn has_come(moment: Option<i64>, now: i64) -> bool {
    match moment {
        Some(moment) => moment <= now,
        None => true,
    }
}

/// Whether an account is due: it is not cooling down, and its next refresh or
/// its next probe has come.
pub open spec fn is_due(row: AccountView, now: i64) -> bool {
    &&& has_come(row.cooldown_until, now)
    &&& has_come(row.next_refresh_due_at, now) || has_come(row.next_probe_due_at, now)
}

fn moment_has_come(moment: Option<i64>, now: i64) -> (yes: bool)
    ensures
        yes == has_come(moment, now),
{
    match moment {
        Some(moment) => moment <= now,
        None => true,
    }
}

/// The accounts of a list that are due, in its order.
pub open spec fn due_rows(rows: Seq<AccountView>, now: i64) -> Seq<AccountView> {
    rows.filter(|row: AccountView| is_due(row, now))
}

/// The accounts that are due, in the order of the list.
pub fn due_accounts(all: &Vec<AccountRow>, now: i64) -> (due: Vec<AccountRow>)
    ensures
        rows_view(due@) == rows_view(all@).filter(|row: AccountView| is_due(row, now)),
        rows_view(due@) == due_rows(rows_view(all@), now),
{
    let ghost rows = rows_view(all@);
    let ghost pred = |row: AccountView| is_due(row, now);
    let mut due: Vec<AccountRow> = Vec::new();
    assert(rows.take(0).filter(pred) =~= Seq::<AccountView>::empty()) by {
        reveal(Seq::filter);
    }
    assert(rows_view(due@) =~= rows.take(0).filter(pred));
    for i in 0..all.len()
        invariant
            rows == rows_view(all@),
            pred == (|row: AccountView| is_due(row, now)),
            rows_view(due@) == rows.take(i as int).filter(pred),
    {
        let row = &all[i];
        proof {
            assert(rows.take(i + 1) =~= rows.take(i as int).push(row@));
            rows.take(i as int).lemma_filter_push(row@, pred);
        }
        if moment_has_come(row.cooldown_until, now) && (moment_has_come(
            row.next_refresh_due_at,
            now,
        ) || moment_has_come(row.next_probe_due_at, now)) {
            let ghost before = due@;
            let copy = row.clone();
            due.push(copy);
            assert(rows_view(due@) =~= rows_view(before).push(row@));
        }
    }
    assert(rows.take(rows.len() as int) =~= rows);
    due
}

/// An account that is cooling down is not due.
pub proof fn law_cooling_is_not_due(rows: Seq<AccountView>, i: int, now: i64)
    requires
        0 <= i < rows.len(),
        rows[i].cooldown_until matches Some(end) && end > now,
    ensures
        !rows.filter(|row: AccountView| is_due(row, now)).contains(rows[i]),
{
    let pred = |row: AccountView| is_due(row, now);
    let due = rows.filter(pred);
    if due.contains(rows[i]) {
        let k = choose|k: int| 0 <= k < due.len() && due[k] == rows[i];
        broadcast use vstd::seq_lib::group_filter_ensures;

        assert(pred(due[k]));
    }
}

/// A stored account with the times at which it came in and last changed.
#[derive(Debug)]
pub struct AccountRecord {
    pub row: AccountRow,
    pub created_at: i64,
    pub updated_at: i64,
}

/// What an `AccountRecord` says.
#[verifier::ext_equal]
pub struct RecordView {
    pub row: AccountView,
    pub created_at: i64,
    pub updated_at: i64,
}

impl View for AccountRecord {
    type V = RecordView;

    open spec fn view(&self) -> RecordView {
        RecordView {
            row: self.row@,
            created_at: self.created_at,
            updated_at: self.updated_at,
        }
    }
}

/// The table of accounts.
#[derive(Debug)]
pub struct AccountTable {
    pub records: Vec<AccountRecord>,
}

impl View for AccountTable {
    type V = Seq<RecordView>;

    open spec fn view(&self) -> Seq<RecordView> {
        self.records@.map_values(|record: AccountRecord| record@)
    }
}

/// Whether no two records bear the same key.
pub open spec fn distinct_keys(table: Seq<RecordView>) -> bool {
    forall|i: int, j: int|
        0 <= i < j < table.len() ==> (#[trigger] table[i]).row.account_key != (
        #[trigger] table[j]).row.account_key
}

/// A table with some of the records of a key changed, and the others left.
pub open spec fn updated_where(
    table: Seq<RecordView>,
    key: Seq<char>,
    change: spec_fn(RecordView) -> RecordView,
) -> Seq<RecordView> {
    table.map_values(
        |record: RecordView|
            if record.row.account_key == key {
                change(record)
            } else {
                record
            },
    )
}

/// A record after a probe. A probe that failed leaves the quota as it was last
/// seen; one that went well clears the error.
pub open spec fn after_probe(record: RecordView, update: ProbeUpdateView, now: i64) -> RecordView {
    let row = record.row;
    let common = AccountView {
        last_probe_at: Some(now),
        last_refresh: text::first_of(update.observed_last_refresh, row.last_refresh),
        next_probe_due_at: Some(update.next_probe_due_at),
        next_refresh_due_at: Some(update.next_refresh_due_at),
        cooldown_until: update.cooldown_until,
        ..row
    };
    RecordView {
        row: if update.ok {
            AccountView {
                last_probe_ok_at: Some(now),
                probe_fail_count: 0,
                last_error: None,
                last_error_kind: None,
                plan: update.plan,
                primary_used_percent: update.primary_used_percent,
                secondary_used_percent: update.secondary_used_percent,
                primary_resets_at: update.primary_resets_at,
                credits_has_credits: update.credits_has_credits,
                credits_unlimited: update.credits_unlimited,
                snapshot_updated_at: Some(now),
                last_refresh_ok_at: if update.observed_last_refresh is Some {
                    Some(now)
                } else {
                    row.last_refresh_ok_at
                },
                ..common
            }
        } else {
            AccountView {
                probe_fail_count: (row.probe_fail_count + 1) as i64,
                last_error: update.error,
                last_error_kind: update.error_kind,
                ..common
            }
        },
        created_at: record.created_at,
        updated_at: now,
    }
}

/// A record after a refresh that failed.
pub open spec fn after_refresh_failure(
    record: RecordView,
    error: Seq<char>,
    error_kind: Seq<char>,
    cooldown_until: i64,
    now: i64,
) -> RecordView {
    RecordView {
        row: AccountView {
            refresh_fail_count: (record.row.refresh_fail_count + 1) as i64,
            last_error: Some(error),
            last_error_kind: Some(error_kind),
            cooldown_until: Some(cooldown_until),
            ..record.row
        },
        created_at: record.created_at,
        updated_at: now,
    }
}

/// A record after its account became the active one.
pub open spec fn after_switch(record: RecordView, now: i64) -> RecordView {
    RecordView {
        row: AccountView { last_switched_at: Some(now), ..record.row },
        created_at: record.created_at,
        updated_at: now,
    }
}

/// A record after its credentials came in again.
pub open spec fn after_import(record: RecordView, update: UpsertView, now: i64) -> RecordView {
    RecordView {
        row: AccountView {
            email: update.email,
            account_id: update.account_id,
            auth_path: update.auth_path,
            last_refresh: text::first_of(update.last_refresh, record.row.last_refresh),
            ..record.row
        },
        created_at: record.created_at,
        updated_at: now,
    }
}

/// The record of an account that is new to the pool.
pub open spec fn new_record(update: UpsertView, now: i64) -> RecordView {
    RecordView {
        row: AccountView {
            account_key: update.account_key,
            email: update.email,
            account_id: update.account_id,
            auth_path: update.auth_path,
            last_refresh: update.last_refresh,
            last_refresh_ok_at: None,
            refresh_fail_count: 0,
            last_probe_at: None,
            last_probe_ok_at: None,
            probe_fail_count: 0,
            last_error: None,
            plan: None,
            primary_used_percent: None,
            secondary_used_percent: None,
            primary_resets_at: None,
            credits_has_credits: None,
            credits_unlimited: None,
            snapshot_updated_at: None,
            cooldown_until: None,
            next_refresh_due_at: None,
            next_probe_due_at: None,
            last_switched_at: None,
            last_error_kind: None,
        },
        created_at: now,
        updated_at: now,
    }
}

/// Whether a table holds a record of a key.
pub open spec fn has_key(table: Seq<RecordView>, key: Seq<char>) -> bool {
    exists|i: int| 0 <= i < table.len() && (#[trigger] table[i]).row.account_key == key
}

/// The table after credentials came in.
pub open spec fn imported(table: Seq<RecordView>, update: UpsertView, now: i64) -> Seq<RecordView> {
    if has_key(table, update.account_key) {
        updated_where(
            table,
            update.account_key,
            |record: RecordView| after_import(record, update, now),
        )
    } else {
        table.push(new_record(update, now))
    }
}

/// A text that may be missing, as a string of its own.
fn owned(text: Option<&str>) -> (string: Option<String>)
    ensures
        string.deep_view() == text.deep_view(),
{
    match text {
        Some(text) => Some(text.to_owned()),
        None => None,
    }
}

/// A text that may be missing, or else another one that is kept.
fn owned_or(text: Option<&str>, kept: &Option<String>) -> (string: Option<String>)
    ensures
        string.deep_view() == text::first_of(text.deep_view(), kept.deep_view()),
{
    match text {
        Some(text) => Some(text.to_owned()),
        None => kept.clone(),
    }
}

/// A record after a probe.
fn probed_record(record: &AccountRecord, update: &ProbeUpdate, now: i64) -> (after: AccountRecord)
    requires
        !update.ok ==> record.row.probe_fail_count < i64::MAX,
    ensures
        after@ == after_probe(record@, update@, now),
{
    let row = &record.row;
    let mut probed = row.clone();
    probed.last_probe_at = Some(now);
    probed.last_refresh = owned_or(update.observed_last_refresh, &row.last_refresh);
    probed.next_probe_due_at = Some(update.next_probe_due_at);
    probed.next_refresh_due_at = Some(update.next_refresh_due_at);
    probed.cooldown_until = update.cooldown_until;
    if update.ok {
        probed.last_probe_ok_at = Some(now);
        probed.probe_fail_count = 0;
        probed.last_error = None;
        probed.last_error_kind = None;
        probed.plan = owned(update.plan);
        probed.primary_used_percent = update.primary_used_percent;
        probed.secondary_used_percent = update.secondary_used_percent;
        probed.primary_resets_at = update.primary_resets_at;
        probed.credits_has_credits = update.credits_has_credits;
        probed.credits_unlimited = update.credits_unlimited;
        probed.snapshot_updated_at = Some(now);
        if update.observed_last_refresh.is_some() {
            probed.last_refresh_ok_at = Some(now);
        }
    } else {
        probed.probe_fail_count = row.probe_fail_count + 1;
        probed.last_error = owned(update.error);
        probed.last_error_kind = owned(update.error_kind);
    }
    AccountRecord { row: probed, created_at: record.created_at, updated_at: now }
}

impl AccountTable {
    /// The place of the record that bears a key.
    fn position(&self, key: &str) -> (at: Option<usize>)
        ensures
            at matches Some(i) ==> i < self@.len() && self@[i as int].row.account_key == key@,
            at is None ==> !has_key(self@, key@),
    {
        for i in 0..self.records.len()
            invariant
                forall|j: int| 0 <= j < i ==> (#[trigger] self@[j]).row.account_key != key@,
        {
            assert(self@[i as int] == self.records@[i as int]@);
            if same_text(self.records[i].row.account_key.as_str(), key) {
                return Some(i);
            }
        }
        None
    }

    /// Puts a record in the place of the one that bears the same key.
    fn replace(&mut self, at: usize, record: AccountRecord)
        requires
            at < old(self)@.len(),
            record@.row.account_key == old(self)@[at as int].row.account_key,
            distinct_keys(old(self)@),
        ensures
            final(self)@ == old(self)@.update(at as int, record@),
            distinct_keys(final(self)@),
            forall|change: spec_fn(RecordView) -> RecordView|
                #[trigger] change(old(self)@[at as int]) == record@ ==> final(self)@
                    == updated_where(old(self)@, record@.row.account_key, change),
    {
        let ghost before = self@;
        self.records.set(at, record);
        proof {
            assert(self@ =~= before.update(at as int, record@));
            assert forall|change: spec_fn(RecordView) -> RecordView|
                #[trigger] change(before[at as int]) == record@ implies self@ == updated_where(
                before,
                record@.row.account_key,
                change,
            ) by {
                assert(self@ =~= updated_where(before, record@.row.account_key, change));
            }
        }
    }
}

/// Stores what a probe came to.
pub fn record_probe(table: &mut AccountTable, update: &ProbeUpdate, now: i64)
    requires
        distinct_keys(old(table)@),
        !update.ok ==> forall|i: int|
            0 <= i < old(table)@.len() && (#[trigger] old(table)@[i]).row.account_key
                == update@.account_key ==> old(table)@[i].row.probe_fail_count < i64::MAX,
    ensures
        final(table)@ == updated_where(
            old(table)@,
            update@.account_key,
            |record: RecordView| after_probe(record, update@, now),
        ),
        distinct_keys(final(table)@),
{
    let ghost change = |record: RecordView| after_probe(record, update@, now);
    match table.position(update.account_key) {
        Some(at) => {
            assert(table@[at as int] == table.records@[at as int]@);
            let after = probed_record(&table.records[at], update, now);
            assert(change(table@[at as int]) == after@);
            table.replace(at, after);
        },
        None => {
            assert(table@ =~= updated_where(table@, update@.account_key, change));
        },
    }
}

/// Stores that a refresh failed.
pub fn touch_refresh_failure(
    table: &mut AccountTable,
    account_key: &str,
    error: &str,
    error_kind: &str,
    cooldown_until: i64,
    now: i64,
)
    requires
        distinct_keys(old(table)@),
        forall|i: int|
            0 <= i < old(table)@.len() && (#[trigger] old(table)@[i]).row.account_key
                == account_key@ ==> old(table)@[i].row.refresh_fail_count < i64::MAX,
    ensures
        final(table)@ == updated_where(
            old(table)@,
            account_key@,
            |record: RecordView|
                after_refresh_failure(record, error@, error_kind@, cooldown_until, now),
        ),
        distinct_keys(final(table)@),
{
    let ghost change = |record: RecordView|
        after_refresh_failure(record, error@, error_kind@, cooldown_until, now);
    match table.position(account_key) {
        Some(at) => {
            let record = &table.records[at];
            assert(table@[at as int] == record@);
            let mut row = record.row.clone();
            row.refresh_fail_count = record.row.refresh_fail_count + 1;
            row.last_error = Some(error.to_owned());
            row.last_error_kind = Some(error_kind.to_owned());
            row.cooldown_until = Some(cooldown_until);
            let after = AccountRecord { row, created_at: record.created_at, updated_at: now };
            assert(change(table@[at as int]) == after@);
            table.replace(at, after);
        },
        None => {
            assert(table@ =~= updated_where(table@, account_key@, change));
        },
    }
}

/// Stores that an account became the active one.
pub fn mark_switch(table: &mut AccountTable, account_key: &str, now: i64)
    requires
        distinct_keys(old(table)@),
    ensures
        final(table)@ == updated_where(
            old(table)@,
            account_key@,
            |record: RecordView| after_switch(record, now),
        ),
        distinct_keys(final(table)@),
{
    let ghost change = |record: RecordView| after_switch(record, now);
    match table.position(account_key) {
        Some(at) => {
            let record = &table.records[at];
            assert(table@[at as int] == record@);
            let mut row = record.row.clone();
            row.last_switched_at = Some(now);
            let after = AccountRecord { row, created_at: record.created_at, updated_at: now };
            assert(change(table@[at as int]) == after@);
            table.replace(at, after);
        },
        None => {
            assert(table@ =~= updated_where(table@, account_key@, change));
        },
    }
}

/// Stores credentials that come into the pool.
pub fn upsert_account(table: &mut AccountTable, update: &UpsertAccount, now: i64)
    requires
        distinct_keys(old(table)@),
    ensures
        final(table)@ == imported(old(table)@, update@, now),
        distinct_keys(final(table)@),
{
    let ghost change = |record: RecordView| after_import(record, update@, now);
    match table.position(update.account_key) {
        Some(at) => {
            let record = &table.records[at];
            assert(table@[at as int] == record@);
            let mut row = record.row.clone();
            row.email = owned(update.email);
            row.account_id = owned(update.account_id);
            row.auth_path = update.auth_path.to_owned();
            row.last_refresh = owned_or(update.last_refresh, &record.row.last_refresh);
            let after = AccountRecord { row, created_at: record.created_at, updated_at: now };
            assert(change(table@[at as int]) == after@);
            table.replace(at, after);
        },
        None => {
            let ghost before = table@;
            let row = AccountRow {
                account_key: update.account_key.to_owned(),
                email: owned(update.email),
                account_id: owned(update.account_id),
                auth_path: update.auth_path.to_owned(),
                last_refresh: owned(update.last_refresh),
                last_refresh_ok_at: None,
                refresh_fail_count: 0,
                last_probe_at: None,
                last_probe_ok_at: None,
                probe_fail_count: 0,
                last_error: None,
                plan: None,
                primary_used_percent: None,
                secondary_used_percent: None,
                primary_resets_at: None,
                credits_has_credits: None,
                credits_unlimited: None,
                snapshot_updated_at: None,
                cooldown_until: None,
                next_refresh_due_at: None,
                next_probe_due_at: None,
                last_switched_at: None,
                last_error_kind: None,
            };
            table.records.push(AccountRecord { row, created_at: now, updated_at: now });
            assert(table@ =~= before.push(new_record(update@, now)));
        },
    }
}

/// Whether accounts stand in the order of the names under which they are
/// listed.
pub open spec fn listed_in_order(rows: Seq<AccountView>) -> bool {
    forall|i: int, j: int|
        0 <= i < j < rows.len() ==> !text::before(
            listed_name(#[trigger] rows[j]),
            listed_name(#[trigger] rows[i]),
        )
}

/// The accounts of a table, in the order of the table.
pub open spec fn table_rows(table: Seq<RecordView>) -> Seq<AccountView> {
    table.map_values(|record: RecordView| record.row)
}

/// Puts an account into a list where its name belongs.
fn insert_in_order(rows: &mut Vec<AccountRow>, row: AccountRow)
    requires
        listed_in_order(rows_view(old(rows)@)),
    ensures
        listed_in_order(rows_view(final(rows)@)),
        rows_view(final(rows)@).to_multiset() == rows_view(old(rows)@).to_multiset().insert(row@),
{
    let ghost before = rows_view(rows@);
    let ghost name = listed_name(row@);
    let mut at: usize = rows.len();
    while at > 0 && text_before(display_name(&row), display_name(&rows[at - 1]))
        invariant
            at <= rows@.len(),
            before == rows_view(rows@),
            name == listed_name(row@),
            forall|j: int|
                at <= j < before.len() ==> text::before(name, listed_name(#[trigger] before[j])),
        ensures
            at <= rows@.len(),
            forall|j: int|
                at <= j < before.len() ==> text::before(name, listed_name(#[trigger] before[j])),
            at > 0 ==> !text::before(name, listed_name(before[at - 1])),
        decreases at,
    {
        assert(before[at - 1] == rows@[at - 1]@);
        at = at - 1;
    }
    proof {
        if at > 0 {
            assert(before[at - 1] == rows@[at - 1]@);
        }
    }
    rows.insert(at, row);
    proof {
        let after = rows_view(rows@);
        assert(after =~= before.insert(at as int, row@));
        vstd::seq_lib::to_multiset_insert(before, at as int, row@);
        assert forall|i: int, j: int| 0 <= i < j < after.len() implies !text::before(
            listed_name(#[trigger] after[j]),
            listed_name(#[trigger] after[i]),
        ) by {
            if i == at {
                assert(after[j] == before[j - 1]);
                text::lemma_before_not_both(listed_name(after[j]), name);
            } else if j == at {
                assert(after[i] == before[i]);
                lemma_later_name(before, i, at - 1, name);
            } else if j < at {
                assert(after[i] == before[i] && after[j] == before[j]);
            } else if i < at {
                assert(after[i] == before[i] && after[j] == before[j - 1]);
            } else {
                assert(after[i] == before[i - 1] && after[j] == before[j - 1]);
            }
        }
    }
}

/// A name that does not stand before a listed one stands before none that is
/// listed earlier.
proof fn lemma_later_name(rows: Seq<AccountView>, i: int, j: int, name: Seq<char>)
    requires
        listed_in_order(rows),
        0 <= i <= j < rows.len(),
        !text::before(name, listed_name(rows[j])),
    ensures
        !text::before(name, listed_name(rows[i])),
{
    if i < j && text::before(name, listed_name(rows[i])) {
        text::lemma_before_total(listed_name(rows[i]), listed_name(rows[j]));
        if text::before(listed_name(rows[i]), listed_name(rows[j])) {
            text::lemma_before_transitive(name, listed_name(rows[i]), listed_name(rows[j]));
        }
    }
}

/// The accounts of the pool in the order of the names under which they are
/// listed.
pub fn list_accounts(table: &AccountTable) -> (rows: Vec<AccountRow>)
    ensures
        listed_in_order(rows_view(rows@)),
        rows_view(rows@).to_multiset() == table_rows(table@).to_multiset(),
{
    let ghost all = table_rows(table@);
    let mut rows: Vec<AccountRow> = Vec::new();
    assert(rows_view(rows@) =~= all.take(0));
    for i in 0..table.records.len()
        invariant
            all == table_rows(table@),
            listed_in_order(rows_view(rows@)),
            rows_view(rows@).to_multiset() == all.take(i as int).to_multiset(),
    {
        let row = table.records[i].row.clone();
        assert(table@[i as int] == table.records@[i as int]@);
        assert(all[i as int] == row@);
        proof {
            assert(all.take(i + 1) =~= all.take(i as int).push(row@));
            vstd::seq_lib::to_multiset_build(all.take(i as int), row@);
        }
        insert_in_order(&mut rows, row);
    }
    assert(all.take(all.len() as int) =~= all);
    rows
}

/// An entry of the history as it is stored.
#[derive(Debug)]
pub struct HistoryRow {
    pub account_key: String,
    pub kind: String,
    pub ok: bool,
    pub message: String,
    pub detail_json: Option<String>,
    pub created_at: i64,
}

/// What an entry of the history says once it is stored.
#[verifier::ext_equal]
pub struct HistoryRowView {
    pub account_key: Seq<char>,
    pub kind: Seq<char>,
    pub ok: bool,
    pub message: Seq<char>,
    pub detail_json: Option<Seq<char>>,
    pub created_at: i64,
}

impl View for HistoryRow {
    type V = HistoryRowView;

    open spec fn view(&self) -> HistoryRowView {
        HistoryRowView {
            account_key: self.account_key@,
            kind: self.kind@,
            ok: self.ok,
            message: self.message@,
            detail_json: self.detail_json.deep_view(),
            created_at: self.created_at,
        }
    }
}

/// What the history keeps of an event.
pub open spec fn recorded(event: HistoryEventView, now: i64) -> HistoryRowView {
    HistoryRowView {
        account_key: event.account_key,
        kind: event.kind.word(),
        ok: event.ok,
        message: event.message,
        detail_json: event.detail_json,
        created_at: now,
    }
}

/// Why an event does not go into the history.
#[derive(Debug, Clone, Copy, PartialEq, Eq, Structural)]
pub enum HistoryError {
    /// The table holds no account of its key.
    UnknownAccount,
}

/// Puts an event at the end of the history, if the table holds its account.
pub fn record_history(
    table: &AccountTable,
    history: &mut Vec<HistoryRow>,
    event: &HistoryEvent,
    now: i64,
) -> (stored: Result<(), HistoryError>)
    ensures
        stored is Ok <==> has_key(table@, event@.account_key),
        stored is Ok ==> final(history)@.len() == old(history)@.len() + 1,
        stored is Ok ==> final(history)@.drop_last() == old(history)@,
        stored is Ok ==> final(history)@.last()@ == recorded(event@, now),
        stored is Err ==> final(history)@ == old(history)@,
{
    let ghost before = history@;
    match table.position(event.account_key) {
        None => Err(HistoryError::UnknownAccount),
        Some(_) => {
            history.push(
                HistoryRow {
                    account_key: event.account_key.to_owned(),
                    kind: event.kind.as_str().to_owned(),
                    ok: event.ok,
                    message: event.message.to_owned(),
                    detail_json: owned(event.detail_json),
                    created_at: now,
                },
            );
            assert(history@.drop_last() =~= before);
            Ok(())
        },
    }
}

/// A column of the table of accounts.
#[derive(Debug, Clone, Copy)]
pub struct Column {
    pub name: &'static str,
    pub kind: &'static str,
}

/// What a `Column` says.
#[verifier::ext_equal]
pub struct ColumnView {
    pub name: Seq<char>,
    pub kind: Seq<char>,
}

impl View for Column {
    type V = ColumnView;

    open spec fn view(&self) -> ColumnView {
        ColumnView { name: self.name@, kind: self.kind@ }
    }
}

/// What columns say.
pub open spec fn columns_view(columns: Seq<Column>) -> Seq<ColumnView> {
    columns.map_values(|column: Column| column@)
}

/// The columns that every table of accounts has.
pub open spec fn first_columns() -> Seq<ColumnView> {
    seq![
        ColumnView { name: "account_key"@, kind: "TEXT PRIMARY KEY"@ },
        ColumnView { name: "email"@, kind: "TEXT"@ },
        ColumnView { name: "account_id"@, kind: "TEXT"@ },
        ColumnView { name: "auth_path"@, kind: "TEXT NOT NULL"@ },
        ColumnView { name: "last_refresh"@, kind: "TEXT"@ },
        ColumnView { name: "created_at"@, kind: "INTEGER NOT NULL"@ },
        ColumnView { name: "updated_at"@, kind: "INTEGER NOT NULL"@ },
        ColumnView { name: "last_refresh_ok_at"@, kind: "INTEGER"@ },
        ColumnView { name: "refresh_fail_count"@, kind: "INTEGER NOT NULL DEFAULT 0"@ },
        ColumnView { name: "last_probe_at"@, kind: "INTEGER"@ },
        ColumnView { name: "last_probe_ok_at"@, kind: "INTEGER"@ },
        ColumnView { name: "probe_fail_count"@, kind: "INTEGER NOT NULL DEFAULT 0"@ },
        ColumnView { name: "last_error"@, kind: "TEXT"@ },
        ColumnView { name: "plan"@, kind: "TEXT"@ },
        ColumnView { name: "primary_used_percent"@, kind: "INTEGER"@ },
        ColumnView { name: "secondary_used_percent"@, kind: "INTEGER"@ },
        ColumnView { name: "primary_resets_at"@, kind: "INTEGER"@ },
        ColumnView { name: "credits_has_credits"@, kind: "INTEGER"@ },
        ColumnView { name: "credits_unlimited"@, kind: "INTEGER"@ },
        ColumnView { name: "snapshot_updated_at"@, kind: "INTEGER"@ },
    ]
}

/// The columns that tables of accounts did not always have.
pub open spec fn late_columns() -> Seq<ColumnView> {
    seq![
        ColumnView { name: "cooldown_until"@, kind: "INTEGER"@ },
        ColumnView { name: "next_refresh_due_at"@, kind: "INTEGER"@ },
        ColumnView { name: "next_probe_due_at"@, kind: "INTEGER"@ },
        ColumnView { name: "last_switched_at"@, kind: "INTEGER"@ },
        ColumnView { name: "last_error_kind"@, kind: "TEXT"@ },
    ]
}

/// Columns as a statement declares them, with commas between them.
pub open spec fn declared(columns: Seq<ColumnView>) -> Seq<char>
    decreases columns.len(),
{
    if columns.len() == 0 {
        Seq::empty()
    } else {
        let column = columns.last();
        let before = declared(columns.drop_last());
        (if columns.len() == 1 {
            before
        } else {
            before + ", "@
        }) + column.name + " "@ + column.kind
    }
}

/// The statement that makes a table of accounts where there is none.
pub open spec fn accounts_statement() -> Seq<char> {
    "CREATE TABLE IF NOT EXISTS accounts ("@ + declared(first_columns() + late_columns()) + ")"@
}

/// The statement that makes a history where there is none. Each of its entries
/// is about an account of the table.
pub open spec fn history_statement() -> Seq<char> {
    "CREATE TABLE IF NOT EXISTS history (id INTEGER PRIMARY KEY AUTOINCREMENT, account_key TEXT NOT NULL, kind TEXT NOT NULL, ok INTEGER NOT NULL, message TEXT NOT NULL, detail_json TEXT, created_at INTEGER NOT NULL, FOREIGN KEY(account_key) REFERENCES accounts(account_key))"@
}

/// The columns that every table of accounts has.
fn first_column_list() -> (columns: Vec<Column>)
    ensures
        columns_view(columns@) == first_columns(),
{
    let columns = vec![
        Column { name: "account_key", kind: "TEXT PRIMARY KEY" },
        Column { name: "email", kind: "TEXT" },
        Column { name: "account_id", kind: "TEXT" },
        Column { name: "auth_path", kind: "TEXT NOT NULL" },
        Column { name: "last_refresh", kind: "TEXT" },
        Column { name: "created_at", kind: "INTEGER NOT NULL" },
        Column { name: "updated_at", kind: "INTEGER NOT NULL" },
        Column { name: "last_refresh_ok_at", kind: "INTEGER" },
        Column { name: "refresh_fail_count", kind: "INTEGER NOT NULL DEFAULT 0" },
        Column { name: "last_probe_at", kind: "INTEGER" },
        Column { name: "last_probe_ok_at", kind: "INTEGER" },
        Column { name: "probe_fail_count", kind: "INTEGER NOT NULL DEFAULT 0" },
        Column { name: "last_error", kind: "TEXT" },
        Column { name: "plan", kind: "TEXT" },
        Column { name: "primary_used_percent", kind: "INTEGER" },
        Column { name: "secondary_used_percent", kind: "INTEGER" },
        Column { name: "primary_resets_at", kind: "INTEGER" },
        Column { name: "credits_has_credits", kind: "INTEGER" },
        Column { name: "credits_unlimited", kind: "INTEGER" },
        Column { name: "snapshot_updated_at", kind: "INTEGER" },
    ];
    assert(columns_view(columns@) =~= first_columns());
    columns
}

/// The columns that tables of accounts did not always have.
fn late_column_list() -> (columns: Vec<Column>)
    ensures
        columns_view(columns@) == late_columns(),
{
    let columns = vec![
        Column { name: "cooldown_until", kind: "INTEGER" },
        Column { name: "next_refresh_due_at", kind: "INTEGER" },
        Column { name: "next_probe_due_at", kind: "INTEGER" },
        Column { name: "last_switched_at", kind: "INTEGER" },
        Column { name: "last_error_kind", kind: "TEXT" },
    ];
    assert(columns_view(columns@) =~= late_columns());
    columns
}

/// Columns as a statement declares them.
fn declaration(columns: &Vec<Column>) -> (text: String)
    ensures
        text@ == declared(columns_view(columns@)),
{
    let ghost all = columns_view(columns@);
    let mut text = String::new();
    assert(text@ =~= declared(all.take(0)));
    for i in 0..columns.len()
        invariant
            all == columns_view(columns@),
            text@ == declared(all.take(i as int)),
    {
        assert(all.take(i + 1).drop_last() =~= all.take(i as int));
        assert(all.take(i + 1).last() == columns@[i as int]@);
        if i > 0 {
            text.append(", ");
        }
        text.append(columns[i].name);
        text.append(" ");
        text.append(columns[i].kind);
    }
    assert(all.take(all.len() as int) =~= all);
    text
}

/// The statements that make the tables where there are none.
pub fn schema_statements() -> (statements: Vec<String>)
    ensures
        statements.deep_view() == seq![accounts_statement(), history_statement()],
{
    let mut columns = first_column_list();
    let mut late = late_column_list();
    let ghost first_view = columns_view(columns@);
    let ghost late_view = columns_view(late@);
    columns.append(&mut late);
    assert(columns_view(columns@) =~= first_view + late_view);
    let mut accounts = "CREATE TABLE IF NOT EXISTS accounts (".to_owned();
    accounts.append(declaration(&columns).as_str());
    accounts.append(")");
    let history = "CREATE TABLE IF NOT EXISTS history (id INTEGER PRIMARY KEY AUTOINCREMENT, account_key TEXT NOT NULL, kind TEXT NOT NULL, ok INTEGER NOT NULL, message TEXT NOT NULL, detail_json TEXT, created_at INTEGER NOT NULL, FOREIGN KEY(account_key) REFERENCES accounts(account_key))".to_owned();
    let mut statements: Vec<String> = Vec::new();
    statements.push(accounts);
    statements.push(history);
    assert(statements.deep_view() =~= seq![accounts_statement(), history_statement()]);
    statements
}

/// The columns that a table of accounts lacks.
pub open spec fn missing(columns: Seq<Seq<char>>) -> Seq<ColumnView> {
    late_columns().filter(|column: ColumnView| !columns.contains(column.name))
}

/// The statement that adds a column.
pub open spec fn addition(column: ColumnView) -> Seq<char> {
    "ALTER TABLE accounts ADD COLUMN "@ + column.name + " "@ + column.kind
}

/// The statements that bring a table of accounts up to date: one for each
/// column that it lacks.
pub open spec fn additions(columns: Seq<Seq<char>>) -> Seq<Seq<char>> {
    missing(columns).map_values(|column: ColumnView| addition(column))
}

/// The columns of a table of accounts once the statements have been run: those
/// that it had, and those that it lacked.
pub open spec fn columns_after(columns: Seq<Seq<char>>) -> Seq<Seq<char>> {
    columns + missing(columns).map_values(|column: ColumnView| column.name)
}

/// The columns of a table of accounts that has just been made.
pub open spec fn made_columns() -> Seq<Seq<char>> {
    (first_columns() + late_columns()).map_values(|column: ColumnView| column.name)
}

/// The columns of the table of accounts once the pool is open, given those that
/// were found, if there was a table.
pub open spec fn open_columns(found: Option<Seq<Seq<char>>>) -> Seq<Seq<char>> {
    columns_after(text::or_else(found, made_columns()))
}

/// Once the missing columns of a table have been added it lacks none.
proof fn lemma_none_missing(columns: Seq<Seq<char>>)
    requires
        forall|i: int|
            0 <= i < late_columns().len() ==> columns.contains((#[trigger] late_columns()[i]).name),
    ensures
        missing(columns) == Seq::<ColumnView>::empty(),
        additions(columns) == Seq::<Seq<char>>::empty(),
        columns_after(columns) == columns,
{
    broadcast use vstd::seq_lib::group_filter_ensures;

    let late = late_columns();
    let lacks = |column: ColumnView| !columns.contains(column.name);
    let left = late.filter(lacks);
    if left.len() > 0 {
        assert(lacks(left[0]));
        assert(left.contains(left[0]));
        late.lemma_filter_contains_rev(lacks, left[0]);
        let i = choose|i: int| 0 <= i < late.len() && late[i] == left[0];
        assert(columns.contains(late[i].name));
    }
    assert(missing(columns) =~= Seq::empty());
    assert(additions(columns) =~= Seq::empty());
    assert(columns_after(columns) =~= columns);
}

/// The columns that are added are all that a table lacks.
proof fn lemma_all_added(columns: Seq<Seq<char>>)
    ensures
        forall|i: int|
            0 <= i < late_columns().len() ==> columns_after(columns).contains(
                (#[trigger] late_columns()[i]).name,
            ),
{
    broadcast use vstd::seq_lib::group_filter_ensures;

    let late = late_columns();
    let lacks = |column: ColumnView| !columns.contains(column.name);
    let lacking = late.filter(lacks);
    let added = lacking.map_values(|column: ColumnView| column.name);
    let after = columns_after(columns);
    assert(after =~= columns + added);
    assert forall|i: int| 0 <= i < late.len() implies after.contains((#[trigger] late[i]).name) by {
        if columns.contains(late[i].name) {
            let k = choose|k: int| 0 <= k < columns.len() && columns[k] == late[i].name;
            assert(after[k] == late[i].name);
        } else {
            assert(lacks(late[i]));
            assert(lacking.contains(late[i]));
            let k = choose|k: int| 0 <= k < lacking.len() && lacking[k] == late[i];
            assert(added[k] == late[i].name);
            assert(after[columns.len() + k] == late[i].name);
        }
    }
}

/// Once the pool is open its table of accounts has every column. A table that
/// was there keeps its columns in their places; one that has just been made
/// needs no more. Where the pool is opened again nothing is asked for, and
/// nothing changes.
pub proof fn law_schema_settles(found: Option<Seq<Seq<char>>>)
    ensures
        found matches Some(columns) ==> open_columns(found).take(columns.len() as int) == columns,
        found is None ==> open_columns(found) == made_columns(),
        forall|i: int|
            0 <= i < late_columns().len() ==> open_columns(found).contains(
                (#[trigger] late_columns()[i]).name,
            ),
        additions(open_columns(found)) == Seq::<Seq<char>>::empty(),
        open_columns(Some(open_columns(found))) == open_columns(found),
{
    let columns = text::or_else(found, made_columns());
    let after = open_columns(found);
    assert(after.take(columns.len() as int) =~= columns);
    lemma_all_added(columns);
    lemma_none_missing(after);
    if found is None {
        let late = late_columns();
        let first = first_columns();
        assert forall|i: int| 0 <= i < late.len() implies columns.contains(
            (#[trigger] late[i]).name,
        ) by {
            assert((first + late)[first.len() + i] == late[i]);
            assert(columns[first.len() + i] == late[i].name);
        }
        lemma_none_missing(columns);
    }
}

/// Whether a table has a column.
fn has_column(columns: &Vec<String>, name: &str) -> (yes: bool)
    ensures
        yes == columns.deep_view().contains(name@),
{
    for i in 0..columns.len()
        invariant
            forall|j: int| 0 <= j < i ==> columns@[j]@ != name@,
    {
        if same_text(columns[i].as_str(), name) {
            assert(columns.deep_view()[i as int] == name@);
            return true;
        }
    }
    assert forall|j: int| 0 <= j < columns.deep_view().len() implies columns.deep_view()[j]
        != name@ by {
        assert(columns.deep_view()[j] == columns@[j]@);
    }
    false
}

/// Asks for a column, if it is missing.
fn ensure_account_column(
    columns: &Vec<String>,
    name: &str,
    kind: &str,
    statements: &mut Vec<String>,
)
    ensures
        final(statements).deep_view() == if columns.deep_view().contains(name@) {
            old(statements).deep_view()
        } else {
            old(statements).deep_view().push(addition(ColumnView { name: name@, kind: kind@ }))
        },
{
    if !has_column(columns, name) {
        let ghost before = statements.deep_view();
        let mut statement = "ALTER TABLE accounts ADD COLUMN ".to_owned();
        statement.append(name);
        statement.append(" ");
        statement.append(kind);
        statements.push(statement);
        assert(statements.deep_view() =~= before.push(
            addition(ColumnView { name: name@, kind: kind@ }),
        ));
    }
}

/// The statements for one more column.
proof fn lemma_one_more_column(columns: Seq<Seq<char>>, count: int)
    requires
        0 <= count < late_columns().len(),
    ensures
        ({
            let lacks = |column: ColumnView| !columns.contains(column.name);
            let column = late_columns()[count];
            late_columns().take(count + 1).filter(lacks) == if columns.contains(column.name) {
                late_columns().take(count).filter(lacks)
            } else {
                late_columns().take(count).filter(lacks).push(column)
            }
        }),
{
    let late = late_columns();
    let lacks = |column: ColumnView| !columns.contains(column.name);
    assert(late.take(count + 1) =~= late.take(count).push(late[count]));
    late.take(count).lemma_filter_push(late[count], lacks);
}

/// The statements that bring a table of accounts up to date, given the columns
/// that it has.
pub fn schema_additions(columns: &Vec<String>) -> (statements: Vec<String>)
    ensures
        statements.deep_view() == additions(columns.deep_view()),
{
    let ghost late = late_columns();
    let ghost lacks = |column: ColumnView| !columns.deep_view().contains(column.name);
    let ghost text = |column: ColumnView| addition(column);
    let wanted = late_column_list();
    let mut statements: Vec<String> = Vec::new();
    assert(late.take(0).filter(lacks) =~= Seq::empty()) by {
        reveal(Seq::filter);
    }
    assert(statements.deep_view() =~= late.take(0).filter(lacks).map_values(text));
    for i in 0..wanted.len()
        invariant
            late == late_columns(),
            late == columns_view(wanted@),
            lacks == (|column: ColumnView| !columns.deep_view().contains(column.name)),
            text == (|column: ColumnView| addition(column)),
            statements.deep_view() == late.take(i as int).filter(lacks).map_values(text),
    {
        let ghost before = late.take(i as int).filter(lacks);
        let column = wanted[i];
        assert(late[i as int] == column@);
        proof {
            lemma_one_more_column(columns.deep_view(), i as int);
        }
        ensure_account_column(columns, column.name, column.kind, &mut statements);
        assert(before.push(late[i as int]).map_values(text) =~= before.map_values(text).push(
            addition(late[i as int]),
        ));
    }
    assert(late.take(late.len() as int) =~= late);
    statements
}

/// Seconds as the pool counts them: none where the clock is set before 1970.
pub open spec fn clock_seconds(elapsed: Option<u64>) -> i64 {
    match elapsed {
        Some(seconds) => seconds as i64,
        None => 0,
    }
}

/// `std::time::SystemTime::now`, as the whole seconds that have passed since
/// 1970; nothing where the clock is set before that. What the clock shows is
/// not stated.
#[verifier::external_body]
pub(crate) fn read_clock() -> (elapsed: Option<u64>) {
    std::time::SystemTime::now()
        .duration_since(std::time::UNIX_EPOCH)
        .ok()
        .map(|elapsed| elapsed.as_secs())
}

/// Whether a reading is one that the clock gave when it was read.
pub closed spec fn clock_gave(elapsed: Option<u64>) -> bool {
    call_ensures(read_clock, (), elapsed)
}

/// Whether a moment is the present at a reading of the clock.
pub open spec fn is_present(now: i64) -> bool {
    exists|elapsed: Option<u64>| #[trigger] clock_gave(elapsed) && now == clock_seconds(elapsed)
}

/// The present is what the clock gave when it was read, in seconds since 1970.
pub(crate) proof fn law_present_comes_from_the_clock(now: i64)
    requires
        is_present(now),
    ensures
        exists|elapsed: Option<u64>| #[trigger]
            call_ensures(read_clock, (), elapsed) && now == (match elapsed {
                Some(seconds) => seconds as i64,
                None => 0,
            }),
{
    let elapsed = choose|elapsed: Option<u64>| #[trigger]
        clock_gave(elapsed) && now == clock_seconds(elapsed);
    assert(call_ensures(read_clock, (), elapsed));
}

/// Reads a clock.
fn ask<F: FnOnce() -> Option<u64>>(clock: F) -> (elapsed: Option<u64>)
    requires
        clock.requires(()),
    ensures
        clock.ensures((), elapsed),
{
    clock()
}

/// The time that a reading of the clock stands for.
pub fn epoch_seconds(elapsed: Option<u64>) -> (now: i64)
    ensures
        now == clock_seconds(elapsed),
{
    match elapsed {
        Some(seconds) => seconds as i64,
        None => 0,
    }
}

/// The current time in seconds since 1970: some reading of the clock. What the
/// clock shows is not stated.
pub fn epoch_now() -> (now: i64)
    ensures
        exists|elapsed: Option<u64>| now == #[trigger] clock_seconds(elapsed),
        is_present(now),
{
    let elapsed = ask(read_clock);
    assert(clock_gave(elapsed));
    epoch_seconds(elapsed)
}

} // verus!
