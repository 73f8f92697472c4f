//! Which account a selector picks, and in which order accounts are listed.

use vstd::prelude::*;

use crate::commands;
use crate::db;
use crate::db::{AccountView, RecordView};
use crate::text;

verus! {

/// Whether the key or the email of an account is a name, character for
/// character.
pub open spec fn is_called(row: AccountView, name: Seq<char>) -> bool {
    ||| row.account_key == name
    ||| row.email matches Some(email) && email == name
}

/// Whether a selector is a place in the list.
pub open spec fn is_place(rows: Seq<AccountView>, selector: Seq<char>) -> bool {
    db::written_number(selector) matches Some(n) && 1 <= n <= rows.len()
}

/// What is found under a name is the first that is called so.
proof fn lemma_first_called(rows: Seq<AccountView>, name: Seq<char>, i: int)
    requires
        0 <= i < rows.len(),
        is_called(rows[i], name),
        forall|j: int| 0 <= j < i ==> !is_called(#[trigger] rows[j], name),
    ensures
        db::first_named(rows, name) == Some(rows[i]),
    decreases rows.len(),
{
    if i > 0 {
        let rest = rows.drop_first();
        assert(!is_called(rows[0], name));
        assert forall|j: int| 0 <= j < i - 1 implies !is_called(#[trigger] rest[j], name) by {
            assert(rest[j] == rows[j + 1]);
        }
        assert(rest[i - 1] == rows[i]);
        lemma_first_called(rest, name, i - 1);
    }
}

/// Nothing is found under a name where nobody is called so.
proof fn lemma_nobody_called(rows: Seq<AccountView>, name: Seq<char>)
    requires
        forall|j: int| 0 <= j < rows.len() ==> !is_called(#[trigger] rows[j], name),
    ensures
        db::first_named(rows, name) is None,
    decreases rows.len(),
{
    if rows.len() > 0 {
        let rest = rows.drop_first();
        assert(!is_called(rows[0], name));
        assert forall|j: int| 0 <= j < rest.len() implies !is_called(#[trigger] rest[j], name) by {
            assert(rest[j] == rows[j + 1]);
        }
        lemma_nobody_called(rest, name);
    }
}

/// A selector that is no place picks the first account whose key or email is the
/// selector once it is normalized.
pub proof fn law_first_of_the_name_is_picked(rows: Seq<AccountView>, selector: Seq<char>, i: int)
    requires
        !is_place(rows, selector),
        0 <= i < rows.len(),
        is_called(rows[i], text::normalized(selector)),
        forall|j: int| 0 <= j < i ==> !is_called(#[trigger] rows[j], text::normalized(selector)),
    ensures
        db::selected(rows, selector) == Some(rows[i]),
{
    lemma_first_called(rows, text::normalized(selector), i);
}

/// A selector that is no place picks nobody where nobody is called so.
pub proof fn law_nobody_of_the_name_is_picked(rows: Seq<AccountView>, selector: Seq<char>)
    requires
        !is_place(rows, selector),
        forall|j: int|
            0 <= j < rows.len() ==> !is_called(#[trigger] rows[j], text::normalized(selector)),
    ensures
        db::selected(rows, selector) is None,
{
    lemma_nobody_called(rows, text::normalized(selector));
}

/// Where one account alone has an email, and none has it as its key, that email
/// picks that very account.
pub proof fn law_own_email_picks_the_account(rows: Seq<AccountView>, selector: Seq<char>, i: int)
    requires
        !is_place(rows, selector),
        0 <= i < rows.len(),
        rows[i].email == Some(text::normalized(selector)),
        forall|j: int|
            0 <= j < rows.len() && j != i ==> (#[trigger] rows[j]).email != Some(
                text::normalized(selector),
            ) && rows[j].account_key != text::normalized(selector),
    ensures
        db::selected(rows, selector) == Some(rows[i]),
{
    lemma_first_called(rows, text::normalized(selector), i);
}

/// Whoever a selector picks that is no place has it, once it is normalized, as
/// key or as email, and stands in the list.
pub proof fn law_picked_has_the_name(rows: Seq<AccountView>, selector: Seq<char>)
    requires
        !is_place(rows, selector),
        db::selected(rows, selector) is Some,
    ensures
        rows.contains(db::selected(rows, selector)->0),
        is_called(db::selected(rows, selector)->0, text::normalized(selector)),
{
    let name = text::normalized(selector);
    if forall|j: int| 0 <= j < rows.len() ==> !is_called(#[trigger] rows[j], name) {
        lemma_nobody_called(rows, name);
    } else {
        let some = choose|j: int| 0 <= j < rows.len() && is_called(#[trigger] rows[j], name);
        lemma_least_called(rows, name, some);
        let i = choose|i: int|
            0 <= i <= some && is_called(#[trigger] rows[i], name) && forall|j: int|
                0 <= j < i ==> !is_called(#[trigger] rows[j], name);
        lemma_first_called(rows, name, i);
    }
}

proof fn lemma_least_called(rows: Seq<AccountView>, name: Seq<char>, some: int)
    requires
        0 <= some < rows.len(),
        is_called(rows[some], name),
    ensures
        exists|i: int|
            0 <= i <= some && is_called(#[trigger] rows[i], name) && forall|j: int|
                0 <= j < i ==> !is_called(#[trigger] rows[j], name),
    decreases some,
{
    if exists|j: int| 0 <= j < some && is_called(#[trigger] rows[j], name) {
        let j = choose|j: int| 0 <= j < some && is_called(#[trigger] rows[j], name);
        lemma_least_called(rows, name, j);
    }
}

/// A selector that is a place picks the account at that place, whatever it is
/// called.
pub proof fn law_place_picks_the_account(rows: Seq<AccountView>, selector: Seq<char>, place: nat)
    requires
        db::written_number(selector) == Some(place),
        1 <= place <= rows.len(),
    ensures
        db::selected(rows, selector) == Some(rows[place - 1]),
{
}

/// A digit is a number, and a digit behind a number makes it ten times as large
/// and adds itself.
pub proof fn law_numbers_by_their_digits(s: Seq<char>, c: char)
    requires
        '0' <= c <= '9',
    ensures
        db::written_number(seq![c]) == Some((c as nat - '0' as nat) as nat),
        db::written_number(s) matches Some(n) ==> db::written_number(s.push(c)) == Some(
            (n * 10 + (c as nat - '0' as nat)) as nat,
        ),
{
    reveal_with_fuel(db::digits_value, 2);
    assert(seq![c].drop_last() =~= Seq::<char>::empty());
    assert(seq![c].last() == c);
    if db::written_number(s) is Some {
        let longer = s.push(c);
        assert(longer[0] == s[0]);
        let body = if s[0] == '+' {
            s.drop_first()
        } else {
            s
        };
        assert(s[0] == '+' ==> longer.drop_first() =~= body.push(c));
        assert(body.push(c).drop_last() =~= body);
        assert(db::all_digits(body.push(c)));
    }
}

/// A plus sign in front of a number changes nothing, and stands there alone only
/// once.
pub proof fn law_plus_in_front(s: Seq<char>)
    requires
        s.len() == 0 || s[0] != '+',
    ensures
        db::written_number(seq!['+'] + s) == db::written_number(s),
        db::written_number(seq!['+', '+'] + s) is None,
{
    let once = seq!['+'] + s;
    assert(once.drop_first() =~= s);
    let twice = seq!['+', '+'] + s;
    assert(twice.drop_first()[0] == '+');
}

/// A text with anything in it but digits, behind a plus sign or none, is no
/// number; neither is one without digits.
pub proof fn law_only_digits_are_numbers(s: Seq<char>, i: int)
    ensures
        0 <= i < s.len() && !('0' <= s[i] <= '9') && !(i == 0 && s[0] == '+')
            ==> db::written_number(s) is None,
        db::written_number(Seq::<char>::empty()) is None,
        db::written_number(seq!['+']) is None,
{
    if 0 <= i < s.len() && !('0' <= s[i] <= '9') && !(i == 0 && s[0] == '+') {
        if s[0] == '+' {
            assert(s.drop_first()[i - 1] == s[i]);
        }
    }
}

/// Without a selector a command is about every account; with one it is about the
/// account that the selector picks, if it picks one.
pub proof fn law_rows_of_a_command(rows: Seq<AccountView>, selector: Seq<char>)
    ensures
        db::chosen_rows(rows, None) == rows,
        db::selected(rows, selector) matches Some(row) ==> db::chosen_rows(rows, Some(selector))
            == seq![row],
        db::selected(rows, selector) is None ==> db::chosen_rows(rows, Some(selector)).len() == 0,
{
}

/// The account that was asked for is the one that becomes active: its key, its
/// credentials, and its email, or else its key, in what is said.
pub proof fn law_asked_for_becomes_active(row: AccountView)
    ensures
        commands::switch_to(row).account_key == row.account_key,
        commands::switch_to(row).auth_path == row.auth_path,
        row.email matches Some(email) ==> commands::switch_to(row).line == "switched to "@ + email,
        row.email is None ==> commands::switch_to(row).line == "switched to "@ + row.account_key,
{
}

/// The name under which an account is listed: its email, or else its key.
pub open spec fn called(row: AccountView) -> Seq<char> {
    match row.email {
        Some(email) => email,
        None => row.account_key,
    }
}

/// In a list an account whose name begins with a smaller character, at the first
/// place where the names differ, stands before another, and so does one whose
/// name is the beginning of the other's.
pub proof fn law_listed_by_name(
    rows: Seq<AccountView>,
    i: int,
    j: int,
    common: Seq<char>,
    one: Seq<char>,
    other: Seq<char>,
)
    requires
        db::listed_in_order(rows),
        0 <= i < rows.len(),
        0 <= j < rows.len(),
        called(rows[i]) == common + one,
        called(rows[j]) == common + other,
        other.len() > 0,
        one.len() > 0 ==> one[0] < other[0],
    ensures
        i < j,
{
    let a = called(rows[i]);
    let b = called(rows[j]);
    let at = common.len() as int;
    assert(b[at] == other[0]);
    assert(one.len() > 0 ==> a[at] == one[0]);
    assert forall|k: int| 0 <= k < at implies a[k] == b[k] by {
        assert(a[k] == common[k] && b[k] == common[k]);
    }
    assert(text::before_at(a, b, at));
    assert(db::listed_name(rows[i]) == a && db::listed_name(rows[j]) == b);
    if i == j {
        text::lemma_before_irreflexive(a);
    }
}

/// The accounts that are due are those of the list that are, each as often as it
/// stands there, and in the same order.
pub proof fn law_due_are_picked_from_the_list(rows: Seq<AccountView>, row: AccountView, now: i64)
    ensures
        db::due_rows(Seq::empty(), now).len() == 0,
        db::is_due(row, now) ==> db::due_rows(rows.push(row), now) == db::due_rows(rows, now).push(
            row,
        ),
        !db::is_due(row, now) ==> db::due_rows(rows.push(row), now) == db::due_rows(rows, now),
        db::due_rows(rows, now).contains(row) <==> rows.contains(row) && db::is_due(row, now),
{
    broadcast use vstd::seq_lib::group_filter_ensures;

    let pred = |row: AccountView| db::is_due(row, now);
    rows.lemma_filter_push(row, pred);
    assert(db::due_rows(Seq::empty(), now).len() <= 0);
    let due = rows.filter(pred);
    if due.contains(row) {
        rows.lemma_filter_contains_rev(pred, row);
        let k = choose|k: int| 0 <= k < due.len() && due[k] == row;
        assert(pred(due[k]));
    }
    if rows.contains(row) && db::is_due(row, now) {
        let k = choose|k: int| 0 <= k < rows.len() && rows[k] == row;
        assert(pred(rows[k]));
        assert(due.contains(rows[k]));
    }
}

/// Whether a table holds an account.
pub open spec fn is_kept(table: Seq<RecordView>, row: AccountView) -> bool {
    exists|i: int| 0 <= i < table.len() && (#[trigger] table[i]).row == row
}

/// A list holds every account of the table, and nothing else, as often as the
/// table does; so no account is lost, and none comes up twice.
pub proof fn law_list_holds_every_account(rows: Seq<AccountView>, table: Seq<RecordView>)
    requires
        rows.to_multiset() == db::table_rows(table).to_multiset(),
    ensures
        rows.len() == table.len(),
        forall|i: int| 0 <= i < table.len() ==> rows.contains((#[trigger] table[i]).row),
        forall|j: int| 0 <= j < rows.len() ==> is_kept(table, #[trigger] rows[j]),
{
    broadcast use vstd::seq_lib::group_to_multiset_ensures;

    let all = db::table_rows(table);
    assert(rows.to_multiset().len() == rows.len());
    assert(all.to_multiset().len() == all.len());
    assert forall|i: int| 0 <= i < table.len() implies rows.contains((#[trigger] table[i]).row) by {
        assert(all[i] == table[i].row);
        assert(all.contains(table[i].row));
        assert(all.to_multiset().count(table[i].row) > 0);
    }
    assert forall|j: int| 0 <= j < rows.len() implies is_kept(table, #[trigger] rows[j]) by {
        assert(rows.contains(rows[j]));
        assert(rows.to_multiset().count(rows[j]) > 0);
        assert(all.contains(rows[j]));
        let i = choose|i: int| 0 <= i < all.len() && all[i] == rows[j];
        assert(table[i].row == rows[j]);
    }
}

} // verus!
