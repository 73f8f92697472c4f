//! What is stored when something happens to an account.

use vstd::prelude::*;

use crate::db;
use crate::db::{mark_switch, record_history, record_probe, touch_refresh_failure, upsert_account};
use crate::db::{AccountTable, AccountView, HistoryRow, HistoryRowView, RecordView};
use crate::db::{HistoryError, HistoryEvent, HistoryEventView, HistoryKind};
use crate::db::{ProbeUpdate, ProbeUpdateView, UpsertAccount, UpsertView};
use crate::probe::SnapshotView;
use crate::refresh;
use crate::refresh::{RefreshResult, RefreshView};
use crate::schedule;
use crate::schedule::{compute_cooldown_until, cooldown_for, moment_named};
use crate::schedule::{compute_next_probe_due_at, compute_next_refresh_due_at};
use crate::schedule::{probe_delay_for, refresh_delay_for};
use crate::text;
use crate::text::{borrowed, same_text};

verus! {

/// Something that is stored.
pub enum StoreAction<'a> {
    /// Credentials came into the pool.
    Import(UpsertAccount<'a>),
    /// A refresh of an account failed.
    RefreshFailure {
        account_key: &'a str,
        error: &'a str,
        error_kind: &'a str,
        cooldown_until: i64,
    },
    /// An account was probed.
    Probe(ProbeUpdate<'a>),
    /// An account became the active one.
    Switch { account_key: &'a str },
    /// Something for the history.
    History(HistoryEvent<'a>),
}

/// What a `StoreAction` says.
#[verifier::ext_equal]
pub enum ActionView {
    Import(UpsertView),
    RefreshFailure {
        account_key: Seq<char>,
        error: Seq<char>,
        error_kind: Seq<char>,
        cooldown_until: i64,
    },
    Probe(ProbeUpdateView),
    Switch { account_key: Seq<char> },
    History(HistoryEventView),
}

impl<'a> View for StoreAction<'a> {
    type V = ActionView;

    open spec fn view(&self) -> ActionView {
        match self {
            StoreAction::Import(update) => ActionView::Import(update@),
            StoreAction::RefreshFailure { account_key, error, error_kind, cooldown_until } =>
                ActionView::RefreshFailure {
                    account_key: account_key@,
                    error: error@,
                    error_kind: error_kind@,
                    cooldown_until: *cooldown_until,
                },
            StoreAction::Probe(update) => ActionView::Probe(update@),
            StoreAction::Switch { account_key } => ActionView::Switch {
                account_key: account_key@,
            },
            StoreAction::History(event) => ActionView::History(event@),
        }
    }
}

/// What actions say.
pub open spec fn actions_view(actions: Seq<StoreAction>) -> Seq<ActionView> {
    actions.map_values(|action: StoreAction| action@)
}

/// The account that an action is about.
pub open spec fn subject(action: ActionView) -> Seq<char> {
    match action {
        ActionView::Import(update) => update.account_key,
        ActionView::RefreshFailure { account_key, .. } => account_key,
        ActionView::Probe(update) => update.account_key,
        ActionView::Switch { account_key } => account_key,
        ActionView::History(event) => event.account_key,
    }
}

/// The account that an action is about.
pub fn subject_of<'a>(action: &StoreAction<'a>) -> (key: &'a str)
    ensures
        key@ == subject(action@),
{
    match action {
        StoreAction::Import(update) => update.account_key,
        StoreAction::RefreshFailure { account_key, .. } => account_key,
        StoreAction::Probe(update) => update.account_key,
        StoreAction::Switch { account_key } => account_key,
        StoreAction::History(event) => event.account_key,
    }
}

/// The table of accounts after an action.
pub open spec fn table_after(table: Seq<RecordView>, action: ActionView, now: i64) -> Seq<
    RecordView,
> {
    match action {
        ActionView::Import(update) => db::imported(table, update, now),
        ActionView::RefreshFailure { account_key, error, error_kind, cooldown_until } =>
            db::updated_where(
                table,
                account_key,
                |record: RecordView|
                    db::after_refresh_failure(record, error, error_kind, cooldown_until, now),
            ),
        ActionView::Probe(update) => db::updated_where(
            table,
            update.account_key,
            |record: RecordView| db::after_probe(record, update, now),
        ),
        ActionView::Switch { account_key } => db::updated_where(
            table,
            account_key,
            |record: RecordView| db::after_switch(record, now),
        ),
        ActionView::History(_) => table,
    }
}

/// What an action adds to the history.
pub open spec fn noted(action: ActionView, now: i64) -> Seq<HistoryRowView> {
    match action {
        ActionView::History(event) => seq![db::recorded(event, now)],
        _ => Seq::empty(),
    }
}

/// What entries of the history say.
pub open spec fn history_view(history: Seq<HistoryRow>) -> Seq<HistoryRowView> {
    history.map_values(|row: HistoryRow| row@)
}

/// Whether the counters that an action raises have room for one more.
pub open spec fn has_room(table: Seq<RecordView>, action: ActionView) -> bool {
    forall|i: int|
        0 <= i < table.len() && (#[trigger] table[i]).row.account_key == subject(action)
            ==> match action {
            ActionView::RefreshFailure { .. } => table[i].row.refresh_fail_count < i64::MAX,
            ActionView::Probe(update) => update.ok || table[i].row.probe_fail_count < i64::MAX,
            _ => true,
        }
}

/// Whether the counters that an action raises have room for one more.
pub fn is_storable(table: &AccountTable, action: &StoreAction) -> (yes: bool)
    ensures
        yes == has_room(table@, action@),
{
    for i in 0..table.records.len()
        invariant
            forall|j: int|
                0 <= j < i && (#[trigger] table@[j]).row.account_key == subject(action@)
                    ==> match action@ {
                    ActionView::RefreshFailure { .. } => table@[j].row.refresh_fail_count
                        < i64::MAX,
                    ActionView::Probe(update) => update.ok || table@[j].row.probe_fail_count
                        < i64::MAX,
                    _ => true,
                },
    {
        assert(table@[i as int] == table.records@[i as int]@);
        let row = &table.records[i].row;
        let full = match action {
            StoreAction::RefreshFailure { account_key, .. } => row.refresh_fail_count == i64::MAX
                && same_text(row.account_key.as_str(), account_key),
            StoreAction::Probe(update) => !update.ok && row.probe_fail_count == i64::MAX
                && same_text(row.account_key.as_str(), update.account_key),
            _ => false,
        };
        if full {
            return false;
        }
    }
    true
}

/// Whether an action is taken: an event goes into the history only where the
/// table holds its account.
pub open spec fn is_taken(table: Seq<RecordView>, action: ActionView) -> bool {
    action is History ==> db::has_key(table, subject(action))
}

/// Whether every entry of the history is about an account of the table.
pub open spec fn all_known(table: Seq<RecordView>, history: Seq<HistoryRowView>) -> bool {
    forall|i: int|
        0 <= i < history.len() ==> db::has_key(table, (#[trigger] history[i]).account_key)
}

/// No action takes an account away.
proof fn lemma_keys_are_kept(table: Seq<RecordView>, action: ActionView, now: i64, key: Seq<char>)
    requires
        db::has_key(table, key),
    ensures
        db::has_key(table_after(table, action, now), key),
{
    let i = choose|i: int|
        0 <= i < table.len() && (#[trigger] table[i]).row.account_key == key;
    assert(table_after(table, action, now)[i].row.account_key == key);
}

/// Every entry of the history stays about an account that the pool holds.
pub proof fn law_history_is_known(
    table: Seq<RecordView>,
    history: Seq<HistoryRowView>,
    action: ActionView,
    now: i64,
)
    requires
        all_known(table, history),
        is_taken(table, action),
    ensures
        all_known(table_after(table, action, now), history + noted(action, now)),
{
    let after = table_after(table, action, now);
    let entries = history + noted(action, now);
    assert forall|i: int| 0 <= i < entries.len() implies db::has_key(
        after,
        (#[trigger] entries[i]).account_key,
    ) by {
        if i < history.len() {
            assert(entries[i] == history[i]);
            lemma_keys_are_kept(table, action, now, history[i].account_key);
        } else {
            assert(entries[i] == noted(action, now)[0]);
        }
    }
}

/// Does what an action says: changes the table of accounts, or adds to the
/// history. An event about an account that the table does not hold is refused,
/// and everything stays as it is.
pub fn perform(
    table: &mut AccountTable,
    history: &mut Vec<HistoryRow>,
    action: &StoreAction,
    now: i64,
) -> (stored: Result<(), HistoryError>)
    requires
        db::distinct_keys(old(table)@),
        has_room(old(table)@, action@),
    ensures
        stored is Ok <==> is_taken(old(table)@, action@),
        stored is Ok ==> final(table)@ == table_after(old(table)@, action@, now),
        stored is Ok ==> history_view(final(history)@) == history_view(old(history)@) + noted(
            action@,
            now,
        ),
        stored is Err ==> final(table)@ == old(table)@ && final(history)@ == old(history)@,
        db::distinct_keys(final(table)@),
        all_known(old(table)@, history_view(old(history)@)) ==> all_known(
            final(table)@,
            history_view(final(history)@),
        ),
{
    let ghost records = table@;
    let ghost before = history@;
    let stored = match action {
        StoreAction::Import(update) => {
            upsert_account(table, update, now);
            Ok(())
        },
        StoreAction::RefreshFailure { account_key, error, error_kind, cooldown_until } => {
            touch_refresh_failure(table, account_key, error, error_kind, *cooldown_until, now);
            Ok(())
        },
        StoreAction::Probe(update) => {
            record_probe(table, update, now);
            Ok(())
        },
        StoreAction::Switch { account_key } => {
            mark_switch(table, account_key, now);
            Ok(())
        },
        StoreAction::History(event) => record_history(table, history, event, now),
    };
    proof {
        if stored is Ok {
            if action@ is History {
                assert(history@.drop_last().push(history@.last()) =~= history@);
            }
            assert(history_view(history@) =~= history_view(before) + noted(action@, now));
            if all_known(records, history_view(before)) {
                law_history_is_known(records, history_view(before), action@, now);
            }
        }
    }
    stored
}

/// An entry of the history about a refresh.
pub open spec fn entry(
    result: RefreshView,
    kind: HistoryKind,
    ok: bool,
    message: Seq<char>,
) -> ActionView {
    ActionView::History(
        HistoryEventView {
            account_key: result.account_key,
            kind,
            ok,
            message,
            detail_json: Some(result.history_detail_json),
        },
    )
}

/// The moment of the next probe after a refresh.
pub open spec fn next_probe(result: RefreshView, now: i64) -> i64 {
    (now + schedule::probe_delay(
        result.ok,
        result.rate_limits_available,
        result.primary_used_percent,
    )) as i64
}

/// The moment of the next refresh after a refresh.
pub open spec fn next_refresh(result: RefreshView, now: i64) -> i64 {
    (now + schedule::refresh_delay(
        now,
        result.ok,
        schedule::moment_in(result.observed_last_refresh),
    )) as i64
}

/// What is stored of a probe that went well.
pub open spec fn good_update(result: RefreshView, now: i64) -> ProbeUpdateView {
    ProbeUpdateView {
        account_key: result.account_key,
        ok: true,
        error: None,
        plan: result.plan,
        primary_used_percent: result.primary_used_percent,
        secondary_used_percent: result.secondary_used_percent,
        primary_resets_at: result.primary_resets_at,
        credits_has_credits: result.credits_has_credits,
        credits_unlimited: result.credits_unlimited,
        observed_last_refresh: result.observed_last_refresh,
        next_probe_due_at: next_probe(result, now),
        next_refresh_due_at: next_refresh(result, now),
        cooldown_until: None,
        error_kind: None,
    }
}

/// The word for the failure of a refresh.
pub open spec fn failure_word(result: RefreshView) -> Seq<char> {
    text::or_else(result.failure_kind, "refresh_failed"@)
}

/// Until when an account is left alone after a refresh that failed.
pub open spec fn failure_cooldown(result: RefreshView, now: i64) -> i64 {
    (now + schedule::cooldown_seconds(result.failure_kind)) as i64
}

/// What is stored of a probe that failed.
pub open spec fn bad_update(result: RefreshView, now: i64) -> ProbeUpdateView {
    ProbeUpdateView {
        account_key: result.account_key,
        ok: false,
        error: Some(result.line),
        plan: None,
        primary_used_percent: None,
        secondary_used_percent: None,
        primary_resets_at: None,
        credits_has_credits: None,
        credits_unlimited: None,
        observed_last_refresh: result.observed_last_refresh,
        next_probe_due_at: next_probe(result, now),
        next_refresh_due_at: next_refresh(result, now),
        cooldown_until: Some(failure_cooldown(result, now)),
        error_kind: Some(failure_word(result)),
    }
}

/// What is stored of a refresh, in order. Of one that was skipped only the
/// history tells.
pub open spec fn persisted(result: RefreshView, now: i64) -> Seq<ActionView> {
    if result.skipped {
        seq![entry(result, HistoryKind::Refresh, true, "refresh skipped"@)]
    } else if result.ok {
        let always = seq![
            ActionView::Probe(good_update(result, now)),
            entry(result, HistoryKind::Probe, true, "probe succeeded"@),
            entry(result, HistoryKind::Refresh, true, "refresh persisted"@),
        ];
        if result.warnings.len() > 0 {
            always.push(entry(result, HistoryKind::Probe, true, "probe completed with warnings"@))
        } else {
            always
        }
    } else {
        seq![
            ActionView::RefreshFailure {
                account_key: result.account_key,
                error: result.line,
                error_kind: failure_word(result),
                cooldown_until: failure_cooldown(result, now),
            },
            ActionView::Probe(bad_update(result, now)),
            entry(result, HistoryKind::Probe, false, "probe failed"@),
            entry(result, HistoryKind::Refresh, false, "refresh failed"@),
        ]
    }
}

/// Whether the moments that follow from a refresh can be counted.
pub open spec fn plannable(result: RefreshView, now: i64) -> bool {
    ||| result.skipped
    ||| {
        &&& now + schedule::probe_delay(
            result.ok,
            result.rate_limits_available,
            result.primary_used_percent,
        ) <= i64::MAX
        &&& now + schedule::refresh_delay(
            now,
            result.ok,
            schedule::moment_in(result.observed_last_refresh),
        ) <= i64::MAX
        &&& result.ok || now + schedule::cooldown_seconds(result.failure_kind) <= i64::MAX
    }
}

/// Whether the moments that follow from a refresh can be counted.
pub fn is_plannable(result: &RefreshResult, now: i64) -> (yes: bool)
    ensures
        yes == plannable(result@, now),
{
    if result.skipped {
        return true;
    }
    let probe = probe_delay_for(
        result.ok,
        result.rate_limits_available,
        result.primary_used_percent,
    );
    let last_refresh = moment_named(borrowed(&result.observed_last_refresh));
    let refresh = refresh_delay_for(now, result.ok, last_refresh);
    now <= i64::MAX - probe && now <= i64::MAX - refresh && (result.ok || now <= i64::MAX
        - cooldown_for(borrowed(&result.failure_kind)))
}

/// An entry of the history about a refresh.
fn history_entry<'a>(
    result: &'a RefreshResult,
    kind: HistoryKind,
    ok: bool,
    message: &'a str,
) -> (action: StoreAction<'a>)
    ensures
        action@ == entry(result@, kind, ok, message@),
{
    StoreAction::History(
        HistoryEvent {
            account_key: result.account_key.as_str(),
            kind,
            ok,
            message,
            detail_json: Some(result.history_detail_json.as_str()),
        },
    )
}

/// What is stored of a refresh, in order.
pub fn persist_refresh_result<'a>(result: &'a RefreshResult, now: i64) -> (actions: Vec<
    StoreAction<'a>,
>)
    requires
        plannable(result@, now),
    ensures
        actions_view(actions@) == persisted(result@, now),
{
    let mut actions: Vec<StoreAction<'a>> = Vec::new();
    if result.skipped {
        actions.push(history_entry(result, HistoryKind::Refresh, true, "refresh skipped"));
        assert(actions_view(actions@) =~= persisted(result@, now));
        return actions;
    }
    let next_probe_due_at = compute_next_probe_due_at(
        now,
        result.ok,
        result.rate_limits_available,
        result.primary_used_percent,
    );
    let next_refresh_due_at = compute_next_refresh_due_at(
        now,
        result.ok,
        borrowed(&result.observed_last_refresh),
    );
    let cooldown_until = compute_cooldown_until(now, result.ok, borrowed(&result.failure_kind));
    if result.ok {
        actions.push(
            StoreAction::Probe(
                ProbeUpdate {
                    account_key: result.account_key.as_str(),
                    ok: true,
                    error: None,
                    plan: borrowed(&result.plan),
                    primary_used_percent: result.primary_used_percent,
                    secondary_used_percent: result.secondary_used_percent,
                    primary_resets_at: result.primary_resets_at,
                    credits_has_credits: result.credits_has_credits,
                    credits_unlimited: result.credits_unlimited,
                    observed_last_refresh: borrowed(&result.observed_last_refresh),
                    next_probe_due_at,
                    next_refresh_due_at,
                    cooldown_until,
                    error_kind: None,
                },
            ),
        );
        actions.push(history_entry(result, HistoryKind::Probe, true, "probe succeeded"));
        actions.push(history_entry(result, HistoryKind::Refresh, true, "refresh persisted"));
        if result.warnings.len() > 0 {
            actions.push(
                history_entry(result, HistoryKind::Probe, true, "probe completed with warnings"),
            );
        }
    } else {
        let error_kind: &'a str = match &result.failure_kind {
            Some(kind) => kind.as_str(),
            None => "refresh_failed",
        };
        let until: i64 = match cooldown_until {
            Some(until) => until,
            None => now + 300,
        };
        actions.push(
            StoreAction::RefreshFailure {
                account_key: result.account_key.as_str(),
                error: result.line.as_str(),
                error_kind,
                cooldown_until: until,
            },
        );
        actions.push(
            StoreAction::Probe(
                ProbeUpdate {
                    account_key: result.account_key.as_str(),
                    ok: false,
                    error: Some(result.line.as_str()),
                    plan: None,
                    primary_used_percent: None,
                    secondary_used_percent: None,
                    primary_resets_at: None,
                    credits_has_credits: None,
                    credits_unlimited: None,
                    observed_last_refresh: borrowed(&result.observed_last_refresh),
                    next_probe_due_at,
                    next_refresh_due_at,
                    cooldown_until,
                    error_kind: Some(error_kind),
                },
            ),
        );
        actions.push(history_entry(result, HistoryKind::Probe, false, "probe failed"));
        actions.push(history_entry(result, HistoryKind::Refresh, false, "refresh failed"));
    }
    assert(actions_view(actions@) =~= persisted(result@, now));
    actions
}

/// What is stored of a refresh, in order; nothing where the moments that follow
/// from it cannot be counted.
pub fn plan_refresh<'a>(result: &'a RefreshResult, now: i64) -> (actions: Option<
    Vec<StoreAction<'a>>,
>)
    ensures
        actions is Some <==> plannable(result@, now),
        actions matches Some(actions) ==> actions_view(actions@) == persisted(result@, now),
{
    if is_plannable(result, now) {
        Some(persist_refresh_result(result, now))
    } else {
        None
    }
}

/// The table of accounts after actions in order, each at a time of its own.
pub open spec fn stored(table: Seq<RecordView>, actions: Seq<ActionView>, times: Seq<i64>) -> Seq<
    RecordView,
>
    decreases actions.len(),
{
    if actions.len() == 0 {
        table
    } else {
        table_after(
            stored(table, actions.drop_last(), times),
            actions.last(),
            times[actions.len() - 1],
        )
    }
}

/// An action leaves the accounts that it is not about as they are, each in its
/// place.
pub proof fn law_others_untouched(table: Seq<RecordView>, action: ActionView, now: i64, i: int)
    requires
        0 <= i < table.len(),
        table[i].row.account_key != subject(action),
    ensures
        table_after(table, action, now).len() >= table.len(),
        table_after(table, action, now)[i] == table[i],
{
}

/// No action changes the key of an account or the time at which it came in.
pub proof fn law_keys_stay(table: Seq<RecordView>, action: ActionView, now: i64, i: int)
    requires
        0 <= i < table.len(),
    ensures
        table_after(table, action, now)[i].row.account_key == table[i].row.account_key,
        table_after(table, action, now)[i].created_at == table[i].created_at,
{
}

/// No action but an import brings a new account; an import brings the one that
/// it is about, if the pool does not hold it.
pub proof fn law_only_imports_add(table: Seq<RecordView>, action: ActionView, now: i64)
    ensures
        action is Import ==> db::has_key(table_after(table, action, now), subject(action)),
        action is Import && !db::has_key(table, subject(action)) ==> table_after(
            table,
            action,
            now,
        ).len() == table.len() + 1,
        !(action is Import) || db::has_key(table, subject(action)) ==> table_after(
            table,
            action,
            now,
        ).len() == table.len(),
{
    let after = table_after(table, action, now);
    if action is Import {
        if db::has_key(table, subject(action)) {
            let i = choose|i: int|
                0 <= i < table.len() && (#[trigger] table[i]).row.account_key == subject(action);
            assert(after[i].row.account_key == subject(action));
        } else {
            assert(after[table.len() as int].row.account_key == subject(action));
        }
    }
}

/// Credentials that come in again replace the email, the account and the path;
/// they replace the last refresh only where they name one. What the pool knows
/// of the account otherwise stays.
pub proof fn law_import_keeps_state(table: Seq<RecordView>, update: UpsertView, now: i64, i: int)
    requires
        0 <= i < table.len(),
        table[i].row.account_key == update.account_key,
    ensures
        ({
            let before = table[i].row;
            let after = table_after(table, ActionView::Import(update), now)[i].row;
            after == AccountView {
                email: update.email,
                account_id: update.account_id,
                auth_path: update.auth_path,
                last_refresh: after.last_refresh,
                ..before
            } && after.last_refresh == text::first_of(update.last_refresh, before.last_refresh)
        }),
{
    assert(db::has_key(table, update.account_key));
}

/// To make an account the active one changes nothing of it but when it was last
/// active.
pub proof fn law_switch_marks_time_only(table: Seq<RecordView>, key: Seq<char>, now: i64, i: int)
    requires
        0 <= i < table.len(),
        table[i].row.account_key == key,
    ensures
        table_after(table, ActionView::Switch { account_key: key }, now)[i].row == (AccountView {
            last_switched_at: Some(now),
            ..table[i].row
        }),
{
}

/// An account that is new to the pool is due at any time.
pub proof fn law_new_account_is_due(
    table: Seq<RecordView>,
    update: UpsertView,
    now: i64,
    later: i64,
)
    requires
        !db::has_key(table, update.account_key),
    ensures
        db::is_due(table_after(table, ActionView::Import(update), now).last().row, later),
{
}

/// A refresh that was skipped leaves the table of accounts as it is.
pub proof fn law_skipped_refresh_stores_nothing(
    table: Seq<RecordView>,
    result: RefreshView,
    now: i64,
    times: Seq<i64>,
)
    requires
        result.skipped,
    ensures
        stored(table, persisted(result, now), times) == table,
{
    reveal_with_fuel(stored, 2);
    assert(persisted(result, now).drop_last() =~= Seq::empty());
}

/// What is left of an account after a refresh that failed.
pub proof fn lemma_failed_refresh(
    table: Seq<RecordView>,
    result: RefreshView,
    now: i64,
    times: Seq<i64>,
    i: int,
)
    requires
        0 <= i < table.len(),
        table[i].row.account_key == result.account_key,
        !result.skipped,
        !result.ok,
    ensures
        stored(table, persisted(result, now), times)[i] == db::after_probe(
            db::after_refresh_failure(
                table[i],
                result.line,
                failure_word(result),
                failure_cooldown(result, now),
                times[0],
            ),
            bad_update(result, now),
            times[1],
        ),
{
    let actions = persisted(result, now);
    reveal_with_fuel(stored, 5);
    assert(actions.len() == 4);
    assert(actions.drop_last().drop_last().drop_last().drop_last() =~= Seq::empty());
    assert(actions.drop_last().drop_last().drop_last().last() == actions[0]);
    assert(actions.drop_last().drop_last().last() == actions[1]);
    assert(actions.drop_last().last() == actions[2]);
}

/// What is left of an account after a refresh that went well.
pub proof fn lemma_good_refresh(
    table: Seq<RecordView>,
    result: RefreshView,
    now: i64,
    times: Seq<i64>,
    i: int,
)
    requires
        0 <= i < table.len(),
        table[i].row.account_key == result.account_key,
        !result.skipped,
        result.ok,
    ensures
        stored(table, persisted(result, now), times)[i] == db::after_probe(
            table[i],
            good_update(result, now),
            times[0],
        ),
{
    let actions = persisted(result, now);
    reveal_with_fuel(stored, 5);
    if result.warnings.len() > 0 {
        assert(actions.len() == 4);
        assert(actions.drop_last().drop_last().drop_last().drop_last() =~= Seq::empty());
        assert(actions.drop_last().drop_last().drop_last().last() == actions[0]);
        assert(actions.drop_last().drop_last().last() == actions[1]);
        assert(actions.drop_last().last() == actions[2]);
    } else {
        assert(actions.len() == 3);
        assert(actions.drop_last().drop_last().drop_last() =~= Seq::empty());
        assert(actions.drop_last().drop_last().last() == actions[0]);
        assert(actions.drop_last().last() == actions[1]);
    }
}

/// A refresh that failed leaves the plan and the quota of the account as they
/// were last seen, counts one more failed refresh and one more failed probe,
/// and keeps the error.
pub proof fn law_failed_refresh_keeps_quota(
    table: Seq<RecordView>,
    result: RefreshView,
    now: i64,
    times: Seq<i64>,
    i: int,
)
    requires
        0 <= i < table.len(),
        table[i].row.account_key == result.account_key,
        table[i].row.refresh_fail_count < i64::MAX,
        table[i].row.probe_fail_count < i64::MAX,
        !result.skipped,
        !result.ok,
    ensures
        ({
            let before = table[i].row;
            let after = stored(table, persisted(result, now), times)[i].row;
            &&& after.plan == before.plan
            &&& refresh::stored_quota(after) == refresh::stored_quota(before)
            &&& after.snapshot_updated_at == before.snapshot_updated_at
            &&& after.last_probe_ok_at == before.last_probe_ok_at
            &&& after.last_refresh_ok_at == before.last_refresh_ok_at
            &&& after.refresh_fail_count == before.refresh_fail_count + 1
            &&& after.probe_fail_count == before.probe_fail_count + 1
            &&& after.last_error == Some(result.line)
            &&& after.last_error_kind == Some(failure_word(result))
        }),
{
    lemma_failed_refresh(table, result, now, times, i);
}

/// A refresh that went well replaces the plan and the quota of the account and
/// clears its error, its cooldown and its failed probes. The failed refreshes
/// stay counted.
pub proof fn law_good_refresh_clears_error(
    table: Seq<RecordView>,
    result: RefreshView,
    now: i64,
    times: Seq<i64>,
    i: int,
)
    requires
        0 <= i < table.len(),
        table[i].row.account_key == result.account_key,
        !result.skipped,
        result.ok,
    ensures
        ({
            let before = table[i].row;
            let after = stored(table, persisted(result, now), times)[i].row;
            &&& after.plan == result.plan
            &&& after.primary_used_percent == result.primary_used_percent
            &&& after.secondary_used_percent == result.secondary_used_percent
            &&& after.primary_resets_at == result.primary_resets_at
            &&& after.credits_has_credits == result.credits_has_credits
            &&& after.credits_unlimited == result.credits_unlimited
            &&& after.last_error is None
            &&& after.last_error_kind is None
            &&& after.cooldown_until is None
            &&& after.probe_fail_count == 0
            &&& after.refresh_fail_count == before.refresh_fail_count
            &&& after.last_probe_ok_at == Some(times[0])
            &&& after.snapshot_updated_at == Some(times[0])
        }),
{
    lemma_good_refresh(table, result, now, times, i);
}

/// After a refresh that failed an account is due again once its cooldown is
/// over, and not within five minutes.
pub proof fn law_due_after_failure(
    table: Seq<RecordView>,
    result: RefreshView,
    now: i64,
    times: Seq<i64>,
    i: int,
    later: i64,
)
    requires
        0 <= i < table.len(),
        table[i].row.account_key == result.account_key,
        !result.skipped,
        !result.ok,
        plannable(result, now),
    ensures
        db::is_due(stored(table, persisted(result, now), times)[i].row, later) <==> later >= now
            + 300 && later >= now + schedule::cooldown_seconds(result.failure_kind),
{
    lemma_failed_refresh(table, result, now, times, i);
}

/// After a refresh that went well an account is due again at its next probe or
/// its next refresh, whichever comes first.
pub proof fn law_due_after_success(
    table: Seq<RecordView>,
    result: RefreshView,
    now: i64,
    times: Seq<i64>,
    i: int,
    later: i64,
)
    requires
        0 <= i < table.len(),
        table[i].row.account_key == result.account_key,
        !result.skipped,
        result.ok,
        plannable(result, now),
    ensures
        db::is_due(stored(table, persisted(result, now), times)[i].row, later) <==> later >= now
            + schedule::probe_delay(true, result.rate_limits_available, result.primary_used_percent)
            || later >= now + schedule::refresh_delay(
            now,
            true,
            schedule::moment_in(result.observed_last_refresh),
        ),
{
    lemma_good_refresh(table, result, now, times, i);
}

/// Whatever a refresh came to, unless it was skipped, its account is left alone
/// for five minutes.
pub proof fn law_rest_after_refresh(
    table: Seq<RecordView>,
    result: RefreshView,
    now: i64,
    times: Seq<i64>,
    i: int,
    later: i64,
)
    requires
        0 <= i < table.len(),
        table[i].row.account_key == result.account_key,
        !result.skipped,
        plannable(result, now),
        later < now + 300,
    ensures
        !db::is_due(stored(table, persisted(result, now), times)[i].row, later),
{
    if result.ok {
        law_due_after_success(table, result, now, times, i, later);
    } else {
        law_due_after_failure(table, result, now, times, i, later);
    }
}

/// Where the limits did not come back the pool keeps the quota that it last
/// saw.
pub proof fn law_missing_limits_keep_quota(
    table: Seq<RecordView>,
    snapshot: SnapshotView,
    reset: Seq<char>,
    now: i64,
    times: Seq<i64>,
    i: int,
)
    requires
        0 <= i < table.len(),
        !snapshot.rate_limits_available,
    ensures
        ({
            let result = refresh::good_refresh(table[i].row, snapshot, reset);
            let after = stored(table, persisted(result, now), times)[i].row;
            refresh::stored_quota(after) == refresh::stored_quota(table[i].row)
        }),
{
    lemma_good_refresh(
        table,
        refresh::good_refresh(table[i].row, snapshot, reset),
        now,
        times,
        i,
    );
}

} // verus!
