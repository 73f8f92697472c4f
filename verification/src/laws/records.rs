//! What is stored of an account when something happens to it.

use vstd::prelude::*;

use crate::commands;
use crate::db;
use crate::db::{AccountView, ColumnView, HistoryEventView, HistoryKind, ProbeUpdateView, RecordView, UpsertView};
use crate::refresh::RefreshView;
use crate::schedule;
use crate::store;
use crate::store::ActionView;

verus! {

/// A new value, or the old one where there is no new one.
pub open spec fn newer<T>(new: Option<T>, old: Option<T>) -> Option<T> {
    if new is Some {
        new
    } else {
        old
    }
}

/// After a probe that went well an account holds what the probe saw, no error,
/// no failed probes, and the moments at which it was seen and is looked at
/// again. Its name, its credentials, its failed refreshes and when it was last
/// active stay.
pub proof fn law_good_probe_is_stored(
    table: Seq<RecordView>,
    update: ProbeUpdateView,
    now: i64,
    i: int,
)
    requires
        0 <= i < table.len(),
        table[i].row.account_key == update.account_key,
        update.ok,
    ensures
        ({
            let before = table[i].row;
            let record = store::table_after(table, ActionView::Probe(update), now)[i];
            let after = record.row;
            &&& record.updated_at == now
            &&& after.plan == update.plan
            &&& after.primary_used_percent == update.primary_used_percent
            &&& after.secondary_used_percent == update.secondary_used_percent
            &&& after.primary_resets_at == update.primary_resets_at
            &&& after.credits_has_credits == update.credits_has_credits
            &&& after.credits_unlimited == update.credits_unlimited
            &&& after.snapshot_updated_at == Some(now)
            &&& after.last_probe_at == Some(now)
            &&& after.last_probe_ok_at == Some(now)
            &&& after.probe_fail_count == 0
            &&& after.last_error is None
            &&& after.last_error_kind is None
            &&& after.last_refresh == newer(update.observed_last_refresh, before.last_refresh)
            &&& update.observed_last_refresh is Some ==> after.last_refresh_ok_at == Some(now)
            &&& update.observed_last_refresh is None ==> after.last_refresh_ok_at
                == before.last_refresh_ok_at
            &&& after.next_probe_due_at == Some(update.next_probe_due_at)
            &&& after.next_refresh_due_at == Some(update.next_refresh_due_at)
            &&& after.cooldown_until == update.cooldown_until
            &&& after.email == before.email
            &&& after.account_id == before.account_id
            &&& after.auth_path == before.auth_path
            &&& after.refresh_fail_count == before.refresh_fail_count
            &&& after.last_switched_at == before.last_switched_at
        }),
{
}

/// After a probe that failed an account holds the error, one failed probe more,
/// and the moments at which it was tried and is looked at again. All that was
/// seen of it stays.
pub proof fn law_failed_probe_is_stored(
    table: Seq<RecordView>,
    update: ProbeUpdateView,
    now: i64,
    i: int,
)
    requires
        0 <= i < table.len(),
        table[i].row.account_key == update.account_key,
        table[i].row.probe_fail_count < i64::MAX,
        !update.ok,
    ensures
        ({
            let before = table[i].row;
            let record = store::table_after(table, ActionView::Probe(update), now)[i];
            let after = record.row;
            &&& record.updated_at == now
            &&& after.last_probe_at == Some(now)
            &&& after.probe_fail_count == before.probe_fail_count + 1
            &&& after.last_error == update.error
            &&& after.last_error_kind == update.error_kind
            &&& after.last_refresh == newer(update.observed_last_refresh, before.last_refresh)
            &&& after.next_probe_due_at == Some(update.next_probe_due_at)
            &&& after.next_refresh_due_at == Some(update.next_refresh_due_at)
            &&& after.cooldown_until == update.cooldown_until
            &&& after.plan == before.plan
            &&& after.primary_used_percent == before.primary_used_percent
            &&& after.secondary_used_percent == before.secondary_used_percent
            &&& after.primary_resets_at == before.primary_resets_at
            &&& after.credits_has_credits == before.credits_has_credits
            &&& after.credits_unlimited == before.credits_unlimited
            &&& after.snapshot_updated_at == before.snapshot_updated_at
            &&& after.last_probe_ok_at == before.last_probe_ok_at
            &&& after.last_refresh_ok_at == before.last_refresh_ok_at
            &&& after.email == before.email
            &&& after.account_id == before.account_id
            &&& after.auth_path == before.auth_path
            &&& after.refresh_fail_count == before.refresh_fail_count
            &&& after.last_switched_at == before.last_switched_at
        }),
{
}

/// After a refresh that failed an account holds the error, one failed refresh
/// more, and until when it cools down. All else stays.
pub proof fn law_failed_refresh_is_stored(
    table: Seq<RecordView>,
    key: Seq<char>,
    error: Seq<char>,
    error_kind: Seq<char>,
    cooldown_until: i64,
    now: i64,
    i: int,
)
    requires
        0 <= i < table.len(),
        table[i].row.account_key == key,
        table[i].row.refresh_fail_count < i64::MAX,
    ensures
        ({
            let before = table[i].row;
            let action = ActionView::RefreshFailure {
                account_key: key,
                error,
                error_kind,
                cooldown_until,
            };
            let record = store::table_after(table, action, now)[i];
            &&& record.updated_at == now
            &&& record.row.refresh_fail_count == before.refresh_fail_count + 1
            &&& record.row.last_error == Some(error)
            &&& record.row.last_error_kind == Some(error_kind)
            &&& record.row.cooldown_until == Some(cooldown_until)
            &&& record.row == AccountView {
                refresh_fail_count: record.row.refresh_fail_count,
                last_error: record.row.last_error,
                last_error_kind: record.row.last_error_kind,
                cooldown_until: record.row.cooldown_until,
                ..before
            }
        }),
{
}

/// Credentials that are new to the pool make an account at the end of the table:
/// with what they say, and nothing seen, failed or planned yet.
pub proof fn law_new_account_is_stored(table: Seq<RecordView>, update: UpsertView, now: i64)
    requires
        forall|i: int|
            0 <= i < table.len() ==> (#[trigger] table[i]).row.account_key != update.account_key,
    ensures
        ({
            let after = store::table_after(table, ActionView::Import(update), now);
            let record = after.last();
            let row = record.row;
            &&& after.len() == table.len() + 1
            &&& after.drop_last() == table
            &&& record.created_at == now
            &&& record.updated_at == now
            &&& row.account_key == update.account_key
            &&& row.email == update.email
            &&& row.account_id == update.account_id
            &&& row.auth_path == update.auth_path
            &&& row.last_refresh == update.last_refresh
            &&& row.refresh_fail_count == 0
            &&& row.probe_fail_count == 0
            &&& row.last_refresh_ok_at is None
            &&& row.last_probe_at is None
            &&& row.last_probe_ok_at is None
            &&& row.last_error is None
            &&& row.last_error_kind is None
            &&& row.plan is None
            &&& row.primary_used_percent is None
            &&& row.secondary_used_percent is None
            &&& row.primary_resets_at is None
            &&& row.credits_has_credits is None
            &&& row.credits_unlimited is None
            &&& row.snapshot_updated_at is None
            &&& row.cooldown_until is None
            &&& row.next_refresh_due_at is None
            &&& row.next_probe_due_at is None
            &&& row.last_switched_at is None
        }),
{
    let after = store::table_after(table, ActionView::Import(update), now);
    assert(after.drop_last() =~= table);
}

/// Credentials of an account that the pool holds change what they say of it, and
/// nothing else. A last refresh that they do not name stays.
pub proof fn law_known_account_is_stored(
    table: Seq<RecordView>,
    update: UpsertView,
    now: i64,
    i: int,
)
    requires
        0 <= i < table.len(),
        table[i].row.account_key == update.account_key,
    ensures
        ({
            let before = table[i].row;
            let after = store::table_after(table, ActionView::Import(update), now);
            let record = after[i];
            &&& after.len() == table.len()
            &&& record.created_at == table[i].created_at
            &&& record.updated_at == now
            &&& record.row == AccountView {
                email: update.email,
                account_id: update.account_id,
                auth_path: update.auth_path,
                last_refresh: newer(update.last_refresh, before.last_refresh),
                ..before
            }
        }),
{
    assert(db::has_key(table, update.account_key));
}

/// A switch changes when the account was last active, and nothing else of it.
pub proof fn law_switch_is_stored(table: Seq<RecordView>, key: Seq<char>, now: i64, i: int)
    requires
        0 <= i < table.len(),
        table[i].row.account_key == key,
    ensures
        ({
            let record = store::table_after(table, ActionView::Switch { account_key: key }, now)[i];
            &&& record.updated_at == now
            &&& record.row.last_switched_at == Some(now)
            &&& record.row == AccountView {
                last_switched_at: record.row.last_switched_at,
                ..table[i].row
            }
        }),
{
}

/// The history keeps an event as it is, with the word for its kind and the time.
pub proof fn law_event_is_stored(table: Seq<RecordView>, event: HistoryEventView, now: i64)
    ensures
        store::table_after(table, ActionView::History(event), now) == table,
        store::noted(ActionView::History(event), now).len() == 1,
        ({
            let entry = store::noted(ActionView::History(event), now)[0];
            &&& entry.account_key == event.account_key
            &&& entry.ok == event.ok
            &&& entry.message == event.message
            &&& entry.detail_json == event.detail_json
            &&& entry.created_at == now
            &&& event.kind is Probe ==> entry.kind == "probe"@
            &&& event.kind is Refresh ==> entry.kind == "refresh"@
            &&& event.kind is Switch ==> entry.kind == "switch"@
        }),
{
}

/// Nothing but events goes into the history.
pub proof fn law_only_events_are_noted(action: ActionView, now: i64)
    requires
        !(action is History),
    ensures
        store::noted(action, now).len() == 0,
{
}

/// A refresh plans ahead: the next probe and the next refresh are as far off as
/// what it came to asks for, and where it failed the account cools down for as
/// long as the kind of the failure asks for.
pub proof fn law_refresh_plans_ahead(
    table: Seq<RecordView>,
    result: RefreshView,
    now: i64,
    times: Seq<i64>,
    i: int,
)
    requires
        0 <= i < table.len(),
        table[i].row.account_key == result.account_key,
        !result.skipped,
        store::plannable(result, now),
    ensures
        ({
            let before = table[i].row;
            let after = store::stored(table, store::persisted(result, now), times)[i].row;
            &&& after.next_probe_due_at is Some
            &&& after.next_probe_due_at->0 - now == schedule::probe_delay(
                result.ok,
                result.rate_limits_available,
                result.primary_used_percent,
            )
            &&& after.next_refresh_due_at is Some
            &&& after.next_refresh_due_at->0 - now == schedule::refresh_delay(
                now,
                result.ok,
                schedule::moment_in(result.observed_last_refresh),
            )
            &&& result.ok ==> after.cooldown_until is None
            &&& !result.ok ==> after.cooldown_until is Some && after.cooldown_until->0 - now
                == schedule::cooldown_seconds(result.failure_kind)
            &&& after.last_refresh == newer(result.observed_last_refresh, before.last_refresh)
            &&& after.last_probe_at == Some(
                if result.ok {
                    times[0]
                } else {
                    times[1]
                },
            )
            &&& result.ok && result.observed_last_refresh is Some ==> after.last_refresh_ok_at
                == Some(times[0])
        }),
{
    if result.ok {
        store::lemma_good_refresh(table, result, now, times, i);
    } else {
        store::lemma_failed_refresh(table, result, now, times, i);
    }
}

/// A refresh leaves who the account is, and when it was last active, as it was.
pub proof fn law_refresh_keeps_who_it_is(
    table: Seq<RecordView>,
    result: RefreshView,
    now: i64,
    times: Seq<i64>,
    i: int,
)
    requires
        0 <= i < table.len(),
        table[i].row.account_key == result.account_key,
        !result.skipped,
    ensures
        ({
            let before = table[i].row;
            let after = store::stored(table, store::persisted(result, now), times)[i].row;
            &&& after.account_key == before.account_key
            &&& after.email == before.email
            &&& after.account_id == before.account_id
            &&& after.auth_path == before.auth_path
            &&& after.last_switched_at == before.last_switched_at
        }),
{
    if result.ok {
        store::lemma_good_refresh(table, result, now, times, i);
    } else {
        store::lemma_failed_refresh(table, result, now, times, i);
    }
}

/// An entry of the history about a refresh.
pub open spec fn told(
    result: RefreshView,
    kind: HistoryKind,
    ok: bool,
    message: Seq<char>,
) -> ActionView {
    ActionView::History(
        HistoryEventView {
            account_key: result.account_key,
            kind,
            ok,
            message,
            detail_json: Some(result.history_detail_json),
        },
    )
}

/// Every refresh is noted in the history: what its probe came to, and what it
/// came to itself; one with warnings once more, and one that was skipped as such
/// and as nothing else.
pub proof fn law_refresh_is_noted(result: RefreshView, now: i64)
    ensures
        ({
            let actions = store::persisted(result, now);
            let events = actions.filter(|action: ActionView| action is History);
            if result.skipped {
                events == seq![told(result, HistoryKind::Refresh, true, "refresh skipped"@)]
            } else if !result.ok {
                events == seq![
                    told(result, HistoryKind::Probe, false, "probe failed"@),
                    told(result, HistoryKind::Refresh, false, "refresh failed"@),
                ]
            } else if result.warnings.len() == 0 {
                events == seq![
                    told(result, HistoryKind::Probe, true, "probe succeeded"@),
                    told(result, HistoryKind::Refresh, true, "refresh persisted"@),
                ]
            } else {
                events == seq![
                    told(result, HistoryKind::Probe, true, "probe succeeded"@),
                    told(result, HistoryKind::Refresh, true, "refresh persisted"@),
                    told(result, HistoryKind::Probe, true, "probe completed with warnings"@),
                ]
            }
        }),
{
    let actions = store::persisted(result, now);
    let pred = |action: ActionView| action is History;
    reveal(Seq::filter);
    assert(actions.len() <= 4);
    assert(actions.take(0) =~= Seq::<ActionView>::empty());
    assert(actions.take(0).filter(pred) =~= Seq::<ActionView>::empty());
    lemma_next(actions, pred, 0);
    lemma_next(actions, pred, 1);
    lemma_next(actions, pred, 2);
    lemma_next(actions, pred, 3);
    assert(actions.take(actions.len() as int) =~= actions);
}

proof fn lemma_next(actions: Seq<ActionView>, pred: spec_fn(ActionView) -> bool, count: int)
    requires
        0 <= count,
    ensures
        count < actions.len() ==> actions.take(count + 1).filter(pred) == if pred(actions[count]) {
            actions.take(count).filter(pred).push(actions[count])
        } else {
            actions.take(count).filter(pred)
        },
{
    if count < actions.len() {
        assert(actions.take(count + 1) =~= actions.take(count).push(actions[count]));
        actions.take(count).lemma_filter_push(actions[count], pred);
    }
}

/// Once an account is active the pool stores that, and notes it in the history.
pub proof fn law_activation_is_stored(key: Seq<char>)
    ensures
        commands::switch_actions(key).len() == 2,
        commands::switch_actions(key)[0] == (ActionView::Switch { account_key: key }),
        commands::switch_actions(key)[1] == ActionView::History(
            HistoryEventView {
                account_key: key,
                kind: HistoryKind::Switch,
                ok: true,
                message: "global auth switched"@,
                detail_json: None,
            },
        ),
{
}

/// Whatever a refresh came to, it leaves the other accounts as they are, and
/// brings none.
pub proof fn law_refresh_touches_its_account_only(
    table: Seq<RecordView>,
    result: RefreshView,
    now: i64,
    times: Seq<i64>,
    i: int,
)
    ensures
        ({
            let after = store::stored(table, store::persisted(result, now), times);
            &&& after.len() == table.len()
            &&& 0 <= i < table.len() && table[i].row.account_key != result.account_key ==> after[i]
                == table[i]
        }),
{
    let actions = store::persisted(result, now);
    assert forall|k: int| 0 <= k < actions.len() implies store::subject(#[trigger] actions[k])
        == result.account_key && !(actions[k] is Import) by {}
    lemma_others_stay(table, actions, times, result.account_key, i);
}

proof fn lemma_others_stay(
    table: Seq<RecordView>,
    actions: Seq<ActionView>,
    times: Seq<i64>,
    key: Seq<char>,
    i: int,
)
    requires
        forall|k: int|
            0 <= k < actions.len() ==> store::subject(#[trigger] actions[k]) == key && !(
            actions[k] is Import),
    ensures
        store::stored(table, actions, times).len() == table.len(),
        0 <= i < table.len() && table[i].row.account_key != key ==> store::stored(
            table,
            actions,
            times,
        )[i] == table[i],
    decreases actions.len(),
{
    if actions.len() > 0 {
        let fewer = actions.drop_last();
        assert forall|k: int| 0 <= k < fewer.len() implies store::subject(#[trigger] fewer[k])
            == key && !(fewer[k] is Import) by {
            assert(fewer[k] == actions[k]);
        }
        lemma_others_stay(table, fewer, times, key, i);
        let before = store::stored(table, fewer, times);
        let last = actions[actions.len() - 1];
        assert(actions.last() == last);
        store::law_only_imports_add(before, last, times[actions.len() - 1]);
        if 0 <= i < table.len() && table[i].row.account_key != key {
            store::law_others_untouched(before, last, times[actions.len() - 1], i);
        }
    }
}

/// An action can be stored wherever no counter of its account has reached the
/// largest number; one that raises no counter always can.
pub proof fn law_room(table: Seq<RecordView>, action: ActionView)
    ensures
        (forall|i: int|
            0 <= i < table.len() ==> (#[trigger] table[i]).row.refresh_fail_count < i64::MAX
                && table[i].row.probe_fail_count < i64::MAX) ==> store::has_room(table, action),
        action is Import || action is Switch || action is History ==> store::has_room(
            table,
            action,
        ),
{
}

/// Every action is taken but an event about an account that the table does not
/// hold.
pub proof fn law_what_is_taken(table: Seq<RecordView>, action: ActionView)
    ensures
        !(action is History) ==> store::is_taken(table, action),
        action matches ActionView::History(event) ==> (store::is_taken(table, action) <==> exists|
            i: int,
        |
            0 <= i < table.len() && (#[trigger] table[i]).row.account_key == event.account_key),
{
}

/// What follows from a refresh can be planned two hours before the last moment
/// that can be counted, and at any time before.
pub proof fn law_refresh_can_be_planned(result: RefreshView, now: i64)
    requires
        now <= i64::MAX - 7200,
    ensures
        store::plannable(result, now),
{
    schedule::law_cooldown_is_bounded(result.failure_kind);
}

/// A refresh that failed is stored with its line as the error, the kind of the
/// failure, or that the refresh failed where there is no kind, and the same
/// cooldown twice.
pub proof fn law_failure_is_stored_with_its_kind(
    table: Seq<RecordView>,
    result: RefreshView,
    now: i64,
    times: Seq<i64>,
    i: int,
)
    requires
        0 <= i < table.len(),
        table[i].row.account_key == result.account_key,
        !result.skipped,
        !result.ok,
        store::plannable(result, now),
    ensures
        ({
            let after = store::stored(table, store::persisted(result, now), times)[i].row;
            let word = match result.failure_kind {
                Some(kind) => kind,
                None => "refresh_failed"@,
            };
            &&& after.last_error == Some(result.line)
            &&& after.last_error_kind == Some(word)
            &&& store::persisted(result, now)[0] == ActionView::RefreshFailure {
                account_key: result.account_key,
                error: result.line,
                error_kind: word,
                cooldown_until: after.cooldown_until->0,
            }
        }),
{
    store::lemma_failed_refresh(table, result, now, times, i);
}

/// The words that add a column of some kind to the table of accounts.
pub open spec fn adding(name: Seq<char>, kind: Seq<char>) -> Seq<char> {
    "ALTER TABLE accounts ADD COLUMN "@ + name + " "@ + kind
}

/// A column that the table of accounts lacks is added to it.
pub open spec fn added_where_missing(
    columns: Seq<Seq<char>>,
    name: Seq<char>,
    kind: Seq<char>,
) -> bool {
    !columns.contains(name) ==> db::additions(columns).contains(adding(name, kind))
}

/// A statement adds a column that the table of accounts lacks.
pub open spec fn adds_a_missing(columns: Seq<Seq<char>>, statement: Seq<char>) -> bool {
    exists|name: Seq<char>, kind: Seq<char>|
        !columns.contains(name) && statement == #[trigger] adding(name, kind)
}

/// A table of accounts gets the moments and the kind of error that it lacks,
/// the moments as numbers and the kind as text, and no column that it has is
/// added again.
pub proof fn law_missing_columns_are_added(columns: Seq<Seq<char>>)
    ensures
        added_where_missing(columns, "cooldown_until"@, "INTEGER"@),
        added_where_missing(columns, "next_refresh_due_at"@, "INTEGER"@),
        added_where_missing(columns, "next_probe_due_at"@, "INTEGER"@),
        added_where_missing(columns, "last_switched_at"@, "INTEGER"@),
        added_where_missing(columns, "last_error_kind"@, "TEXT"@),
        forall|i: int|
            0 <= i < db::additions(columns).len() ==> adds_a_missing(
                columns,
                #[trigger] db::additions(columns)[i],
            ),
        db::additions(columns).len() <= 5,
{
    broadcast use vstd::seq_lib::group_filter_ensures;

    let late = db::late_columns();
    let lacks = |column: ColumnView| !columns.contains(column.name);
    let left = late.filter(lacks);
    let statements = db::additions(columns);
    assert(left == db::missing(columns));
    assert(left.len() <= late.len()) by {
        late.lemma_filter_len(lacks);
    }
    assert forall|i: int| 0 <= i < late.len() implies added_where_missing(
        columns,
        (#[trigger] late[i]).name,
        late[i].kind,
    ) by {
        let column = late[i];
        if lacks(column) {
            assert(late.contains(column));
            assert(left.contains(column));
            let j = choose|j: int| 0 <= j < left.len() && left[j] == column;
            assert(statements[j] == adding(column.name, column.kind));
        }
    }
    assert(late[0].name == "cooldown_until"@);
    assert(late[1].name == "next_refresh_due_at"@);
    assert(late[2].name == "next_probe_due_at"@);
    assert(late[3].name == "last_switched_at"@);
    assert(late[4].name == "last_error_kind"@);
    assert forall|i: int| 0 <= i < statements.len() implies adds_a_missing(
        columns,
        #[trigger] statements[i],
    ) by {
        assert(left.contains(left[i]));
        assert(lacks(left[i]));
        assert(statements[i] == adding(left[i].name, left[i].kind));
    }
}

} // verus!
