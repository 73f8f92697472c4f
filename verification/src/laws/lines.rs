//! What the lines about accounts say.

use vstd::prelude::*;

use crate::commands;
use crate::db;
use crate::db::AccountView;
use crate::locks;
use crate::locks::LockFault;
use crate::report;
use crate::report::RowTimesView;
use crate::text;

verus! {

/// What is left of a quota and what is used of it make a hundred percent; of one
/// that is used up nothing is left.
pub proof fn law_left_and_used_make_a_hundred(used: i64, left: int)
    ensures
        0 < left && left + used == 100 ==> report::left_text(Some(used)) == text::decimal_text(left)
            + "%"@,
        used >= 100 ==> report::left_text(Some(used)) == text::decimal_text(0) + "%"@,
        report::left_text(None) == "-"@,
{
}

/// An account is full where its short window is used up; it is usable where it
/// is not, whatever the long one says. Where the short one is not known the long
/// one tells only that it is full.
pub proof fn law_status_of_a_quota(primary: Option<i64>, secondary: Option<i64>)
    ensures
        primary matches Some(used) ==> {
            &&& used >= 100 ==> report::status_of(primary, secondary) == "full"@
            &&& used < 100 ==> report::status_of(primary, secondary) == "usable"@
        },
        primary is None ==> {
            &&& secondary is Some && secondary->0 >= 100 ==> report::status_of(
                primary,
                secondary,
            ) == "full"@
            &&& secondary is None || secondary->0 < 100 ==> report::status_of(primary, secondary)
                == "quota_unknown"@
        },
{
}

/// Credits are told as yes only where they are known to be there.
pub proof fn law_yes_only_where_known(value: Option<bool>)
    ensures
        report::yes_no(Some(true)) == "yes"@,
        report::yes_no(Some(false)) == "no"@,
        report::yes_no(None) == "no"@,
        report::yes_no(value) == "yes"@ <==> value == Some(true),
{
    reveal_strlit("yes");
    reveal_strlit("no");
    assert("yes"@.len() == 3);
    assert("no"@.len() == 2);
}

/// Whether a text is made of a beginning, a part and an end.
pub open spec fn goes_on(whole: Seq<char>, part: Seq<char>, end: Seq<char>) -> bool {
    exists|start: Seq<char>| whole == #[trigger] (start + part + end)
}

proof fn lemma_goes_on(start: Seq<char>, part: Seq<char>, end: Seq<char>)
    ensures
        goes_on(start + part + end, part, end),
{
}

/// The line about a stored account says that it is cooling down where its
/// cooldown ends after the present; else that it is stale where its last probe
/// failed; else that it is cached. What follows is the end of the line.
#[verifier::rlimit(50)]
pub proof fn law_status_in_the_list(
    index: nat,
    total: nat,
    row: AccountView,
    now: i64,
    times: RowTimesView,
)
    ensures
        ({
            let line = report::cached_text(index, total, row, now, times);
            let end = report::suffix_text(row, times);
            let cooling = row.cooldown_until is Some && now < row.cooldown_until->0;
            &&& cooling ==> goes_on(line, "  status="@ + "cooling_down"@, end)
            &&& !cooling && row.probe_fail_count > 0 ==> goes_on(
                line,
                "  status="@ + "stale"@,
                end,
            )
            &&& !cooling && row.probe_fail_count <= 0 ==> goes_on(
                line,
                "  status="@ + "cached"@,
                end,
            )
        }),
{
    let line = report::cached_text(index, total, row, now, times);
    let end = report::suffix_text(row, times);
    let cooling = row.cooldown_until is Some && now < row.cooldown_until->0;
    let word = if cooling {
        "cooling_down"@
    } else if row.probe_fail_count > 0 {
        "stale"@
    } else {
        "cached"@
    };
    let start = line.take(line.len() - end.len() - word.len() - "  status="@.len());
    lemma_goes_on(start, "  status="@ + word, end);
    assert(line =~= start + ("  status="@ + word) + end);
}

/// Time changes nothing in the line about a stored account but whether it is
/// cooling down.
pub proof fn law_time_changes_the_status_only(
    index: nat,
    total: nat,
    row: AccountView,
    now: i64,
    later: i64,
    times: RowTimesView,
)
    requires
        row.cooldown_until is None || (row.cooldown_until->0 <= now <==> row.cooldown_until->0
            <= later),
    ensures
        report::cached_text(index, total, row, now, times) == report::cached_text(
            index,
            total,
            row,
            later,
            times,
        ),
{
}

/// A text, or a dash where there is none.
pub open spec fn or_dash(value: Option<Seq<char>>) -> Seq<char> {
    match value {
        Some(value) => value,
        None => "-"@,
    }
}

/// The name under which an account is listed: its email, or else its key.
pub open spec fn called(row: AccountView) -> Seq<char> {
    match row.email {
        Some(email) => email,
        None => row.account_key,
    }
}

/// The line about a stored account begins with its place, the number of
/// accounts, and its name, and tells each thing under its own name.
#[verifier::rlimit(50)]
pub proof fn law_list_line_tells(
    index: nat,
    total: nat,
    row: AccountView,
    now: i64,
    times: RowTimesView,
)
    ensures
        ({
            let line = report::cached_text(index, total, row, now, times);
            &&& line == "["@ + text::digits(index) + "/"@ + text::digits(total) + "] "@ + called(row)
                + "  account_id="@ + or_dash(row.account_id) + "  plan="@ + or_dash(row.plan)
                + "  5h="@ + report::left_text(row.primary_used_percent) + " left  weekly="@
                + report::left_text(row.secondary_used_percent) + " left  reset_5h="@
                + times.primary_resets_at + "  credits="@ + report::yes_no(row.credits_has_credits)
                + "  last_refresh="@ + or_dash(row.last_refresh) + "  last_probe="@
                + times.last_probe_at + "  last_ok="@ + times.last_ok_at + "  refresh_failures="@
                + text::decimal_text(row.refresh_fail_count as int) + "  snapshot="@
                + times.snapshot_updated_at + "  status="@ + status_at(row, now)
                + report::suffix_text(row, times)
            &&& exists|end: Seq<char>| line == #[trigger] ("["@ + text::digits(index) + "/"@
                + text::digits(total) + "] "@ + called(row) + end)
            &&& text::holds(line, "  account_id="@ + or_dash(row.account_id) + "  plan="@)
            &&& text::holds(line, "  plan="@ + or_dash(row.plan) + "  5h="@)
            &&& text::holds(
                line,
                "  5h="@ + report::left_text(row.primary_used_percent) + " left  weekly="@,
            )
            &&& text::holds(
                line,
                " left  weekly="@ + report::left_text(row.secondary_used_percent)
                    + " left  reset_5h="@,
            )
            &&& text::holds(line, " left  reset_5h="@ + times.primary_resets_at + "  credits="@)
            &&& text::holds(
                line,
                "  credits="@ + report::yes_no(row.credits_has_credits) + "  last_refresh="@,
            )
            &&& text::holds(line, "  last_refresh="@ + or_dash(row.last_refresh) + "  last_probe="@)
            &&& text::holds(line, "  last_probe="@ + times.last_probe_at + "  last_ok="@)
            &&& text::holds(line, "  last_ok="@ + times.last_ok_at + "  refresh_failures="@)
            &&& text::holds(
                line,
                "  refresh_failures="@ + text::decimal_text(row.refresh_fail_count as int)
                    + "  snapshot="@,
            )
            &&& text::holds(line, "  snapshot="@ + times.snapshot_updated_at + "  status="@)
        }),
{
    let line = report::cached_text(index, total, row, now, times);
    let s1 = "["@ + text::digits(index) + "/"@ + text::digits(total) + "] "@ + called(row);
    let s2 = s1 + "  account_id="@ + or_dash(row.account_id);
    let s3 = s2 + "  plan="@ + or_dash(row.plan);
    let s4 = s3 + "  5h="@ + report::left_text(row.primary_used_percent);
    let s5 = s4 + " left  weekly="@ + report::left_text(row.secondary_used_percent);
    let s6 = s5 + " left  reset_5h="@ + times.primary_resets_at;
    let s7 = s6 + "  credits="@ + report::yes_no(row.credits_has_credits);
    let s8 = s7 + "  last_refresh="@ + or_dash(row.last_refresh);
    let s9 = s8 + "  last_probe="@ + times.last_probe_at;
    let s10 = s9 + "  last_ok="@ + times.last_ok_at;
    let s11 = s10 + "  refresh_failures="@ + text::decimal_text(row.refresh_fail_count as int);
    let s12 = s11 + "  snapshot="@ + times.snapshot_updated_at;
    let s13 = s12 + "  status="@;
    let end = report::cached_status(row, now) + report::suffix_text(row, times);
    assert(line == s13 + end) by {
        assert(line =~= s13 + end);
    }
    lemma_whole(line, s13, end);
    lemma_step(line, s12, "  status="@);
    lemma_step(line, s11 + "  snapshot="@, times.snapshot_updated_at);
    lemma_step(line, s11, "  snapshot="@);
    lemma_step(line, s10 + "  refresh_failures="@, text::decimal_text(row.refresh_fail_count as int));
    lemma_step(line, s10, "  refresh_failures="@);
    lemma_step(line, s9 + "  last_ok="@, times.last_ok_at);
    lemma_step(line, s9, "  last_ok="@);
    lemma_step(line, s8 + "  last_probe="@, times.last_probe_at);
    lemma_step(line, s8, "  last_probe="@);
    lemma_step(line, s7 + "  last_refresh="@, or_dash(row.last_refresh));
    lemma_step(line, s7, "  last_refresh="@);
    lemma_step(line, s6 + "  credits="@, report::yes_no(row.credits_has_credits));
    lemma_step(line, s6, "  credits="@);
    lemma_step(line, s5 + " left  reset_5h="@, times.primary_resets_at);
    lemma_step(line, s5, " left  reset_5h="@);
    lemma_step(line, s4 + " left  weekly="@, report::left_text(row.secondary_used_percent));
    lemma_step(line, s4, " left  weekly="@);
    lemma_step(line, s3 + "  5h="@, report::left_text(row.primary_used_percent));
    lemma_step(line, s3, "  5h="@);
    lemma_step(line, s2 + "  plan="@, or_dash(row.plan));
    lemma_step(line, s2, "  plan="@);
    lemma_step(line, s1 + "  account_id="@, or_dash(row.account_id));
    lemma_step(line, s1, "  account_id="@);
    lemma_begins(line, s1);
    lemma_part(line, s1, "  account_id="@, or_dash(row.account_id), "  plan="@);
    lemma_part(line, s2, "  plan="@, or_dash(row.plan), "  5h="@);
    lemma_part(
        line,
        s3,
        "  5h="@,
        report::left_text(row.primary_used_percent),
        " left  weekly="@,
    );
    lemma_part(
        line,
        s4,
        " left  weekly="@,
        report::left_text(row.secondary_used_percent),
        " left  reset_5h="@,
    );
    lemma_part(line, s5, " left  reset_5h="@, times.primary_resets_at, "  credits="@);
    lemma_part(
        line,
        s6,
        "  credits="@,
        report::yes_no(row.credits_has_credits),
        "  last_refresh="@,
    );
    lemma_part(line, s7, "  last_refresh="@, or_dash(row.last_refresh), "  last_probe="@);
    lemma_part(line, s8, "  last_probe="@, times.last_probe_at, "  last_ok="@);
    lemma_part(line, s9, "  last_ok="@, times.last_ok_at, "  refresh_failures="@);
    lemma_part(
        line,
        s10,
        "  refresh_failures="@,
        text::decimal_text(row.refresh_fail_count as int),
        "  snapshot="@,
    );
    lemma_part(line, s11, "  snapshot="@, times.snapshot_updated_at, "  status="@);
}

/// Whether a line begins with a text.
#[verifier::opaque]
spec fn begins(line: Seq<char>, start: Seq<char>) -> bool {
    exists|end: Seq<char>| line == #[trigger] (start + end)
}

/// A line that is made of a beginning and an end begins so.
proof fn lemma_whole(line: Seq<char>, start: Seq<char>, end: Seq<char>)
    requires
        line == start + end,
    ensures
        begins(line, start),
{
    reveal(begins);
}

/// A line goes on behind what it begins with.
proof fn lemma_begins(line: Seq<char>, start: Seq<char>)
    requires
        begins(line, start),
    ensures
        exists|end: Seq<char>| line == #[trigger] (start + end),
{
    reveal(begins);
}

/// What a line begins with it begins with a part of.
proof fn lemma_step(line: Seq<char>, start: Seq<char>, more: Seq<char>)
    requires
        begins(line, start + more),
    ensures
        begins(line, start),
{
    reveal(begins);
    let end = choose|end: Seq<char>| line == #[trigger] ((start + more) + end);
    assert(line =~= start + (more + end));
}

/// Parts that stand in a row at the beginning of a line stand in it.
proof fn lemma_part(
    line: Seq<char>,
    start: Seq<char>,
    label: Seq<char>,
    value: Seq<char>,
    next: Seq<char>,
)
    requires
        begins(line, start + label + value + next),
    ensures
        text::holds(line, label + value + next),
{
    reveal(begins);
    let part = label + value + next;
    let whole = start + label + value + next;
    let end = choose|end: Seq<char>| line == #[trigger] (whole + end);
    lemma_holds(start, part, end, line);
}

/// The moment at which an account was last well is that of its last good probe,
/// or else that of its last good refresh.
pub proof fn law_last_ok(row: AccountView)
    ensures
        row.last_probe_ok_at is Some ==> report::last_ok_at(row) == row.last_probe_ok_at,
        row.last_probe_ok_at is None ==> report::last_ok_at(row) == row.last_refresh_ok_at,
{
}

/// What is planned for an account is told where it is set: its cooldown, its
/// next probe, its next refresh, and when it was last active, in this order.
pub proof fn law_end_of_the_list_line(row: AccountView, times: RowTimesView)
    ensures
        ({
            let cooldown = if row.cooldown_until is Some {
                "  cooldown_until="@ + times.cooldown_until
            } else {
                Seq::empty()
            };
            let probe = if row.next_probe_due_at is Some {
                "  next_probe="@ + times.next_probe_due_at
            } else {
                Seq::empty()
            };
            let refresh = if row.next_refresh_due_at is Some {
                "  next_refresh="@ + times.next_refresh_due_at
            } else {
                Seq::empty()
            };
            let switch = if row.last_switched_at is Some {
                "  last_switch="@ + times.last_switched_at
            } else {
                Seq::empty()
            };
            let planned = cooldown + probe + refresh + switch;
            &&& row.last_error is None ==> report::suffix_text(row, times) == planned
            &&& row.last_error matches Some(error) ==> report::suffix_text(row, times) == planned
                + "  last_error_kind="@ + or_dash(row.last_error_kind) + "  last_error="@ + error
        }),
{
}

/// The line about an account that was refreshed names it, and where it went well
/// tells its plan, what is left of both windows, when the short one ends, its
/// credits, its status, and the warning where there is one; else the reason.
pub proof fn law_line_of_a_refresh(
    name: Seq<char>,
    plan: Option<Seq<char>>,
    primary: Option<i64>,
    secondary: Option<i64>,
    reset: Seq<char>,
    credits: Option<bool>,
    reason: Seq<char>,
)
    ensures
        ({
            let well = "[refresh] "@ + name + "  plan="@ + or_dash(plan) + "  5h="@
                + report::left_text(primary) + " left  weekly="@ + report::left_text(secondary)
                + " left  reset_5h="@ + reset + "  credits="@ + report::yes_no(credits)
                + "  status="@ + report::status_of(primary, secondary);
            let line = |ok: bool, error: Option<Seq<char>>|
                report::live_text(name, plan, primary, secondary, reset, credits, ok, error);
            &&& line(true, None) == well
            &&& line(true, Some(reason)) == well + "  warning="@ + reason
            &&& line(false, Some(reason)) == "[refresh] "@ + name + "  status=error  reason="@
                + reason
            &&& line(false, None) == "[refresh] "@ + name + "  status=error  reason="@
                + "unknown"@
        }),
{
}

/// A moment from 1970 on is the one that is asked for, second for second; one
/// before is not asked for.
pub proof fn law_moment_is_asked_for(moment: i64)
    ensures
        moment >= 0 ==> report::shown_seconds(Some(moment)) == Some(moment as u64),
        moment < 0 ==> report::shown_seconds(Some(moment)) is None,
        report::shown_seconds(None) is None,
{
}

/// What is said of a lock names the file.
pub proof fn law_lock_message_names_the_file(
    path: Seq<char>,
    nonblocking: bool,
    fault: LockFault,
)
    ensures
        text::holds(locks::lock_error(path, nonblocking, fault), path),
        fault matches LockFault::Refused { would_block, error } ==> nonblocking && would_block
            || text::holds(locks::lock_error(path, nonblocking, fault), error@),
{
    let message = locks::lock_error(path, nonblocking, fault);
    match fault {
        LockFault::Open => lemma_holds("open lock "@, path, Seq::empty(), message),
        LockFault::Refused { would_block, error } => if nonblocking && would_block {
            lemma_holds("already locked: "@, path, Seq::empty(), message);
        } else {
            lemma_holds("failed to lock "@, path, ": "@ + error@, message);
            lemma_holds("failed to lock "@ + path + ": "@, error@, Seq::empty(), message);
        },
    }
}

proof fn lemma_holds(start: Seq<char>, part: Seq<char>, end: Seq<char>, whole: Seq<char>)
    requires
        whole =~= start + part + end,
    ensures
        text::holds(whole, part),
{
    let at = start.len() as int;
    assert(whole.subrange(at, at + part.len()) =~= part);
    assert(text::stands_at(whole, part, at));
}

/// The line at a place in the list counts from one, bears the name of the account
/// at that place, and tells whether it is cooling down at a reading of the clock.
pub proof fn law_line_at_a_place(rows: Seq<AccountView>, place: int, line: Seq<char>)
    requires
        0 <= place < rows.len(),
        commands::tells_of(rows, place, line),
    ensures
        exists|end: Seq<char>| line == #[trigger] ("["@ + text::digits((place + 1) as nat) + "/"@
            + text::digits(rows.len()) + "] "@ + called(rows[place]) + end),
        exists|now: i64, times: RowTimesView|
            db::is_present(now) && #[trigger] report::times_show(rows[place], times) && goes_on(
                line,
                "  status="@ + #[trigger] status_at(rows[place], now),
                report::suffix_text(rows[place], times),
            ),
{
    let (now, times) = choose|now: i64, times: RowTimesView|
        db::is_present(now) && report::times_show(rows[place], times) && line
            == #[trigger] report::cached_text(
            (place + 1) as nat,
            rows.len(),
            rows[place],
            now,
            times,
        );
    law_list_line_tells((place + 1) as nat, rows.len(), rows[place], now, times);
    law_status_in_the_list((place + 1) as nat, rows.len(), rows[place], now, times);
    assert(db::is_present(now) && report::times_show(rows[place], times));
    assert(goes_on(
        line,
        "  status="@ + status_at(rows[place], now),
        report::suffix_text(rows[place], times),
    ));
}

/// The status of a stored account at a moment.
pub open spec fn status_at(row: AccountView, now: i64) -> Seq<char> {
    if row.cooldown_until is Some && now < row.cooldown_until->0 {
        "cooling_down"@
    } else if row.probe_fail_count > 0 {
        "stale"@
    } else {
        "cached"@
    }
}

/// The present is a reading of the clock, in seconds since 1970.
pub proof fn law_present_is_read(now: i64)
    requires
        db::is_present(now),
    ensures
        exists|elapsed: Option<u64>| #[trigger]
            db::clock_gave(elapsed) && now == (match elapsed {
                Some(seconds) => seconds as i64,
                None => 0,
            }),
{
    let elapsed = choose|elapsed: Option<u64>| #[trigger]
        db::clock_gave(elapsed) && now == db::clock_seconds(elapsed);
    assert(db::clock_gave(elapsed));
}

/// What is shown of a moment from 1970 on is what was given for that second, or
/// a dash where nothing was.
pub proof fn law_shown_is_given(moment: i64, t: Seq<char>)
    requires
        moment >= 0,
        report::is_shown(Some(moment), t),
    ensures
        exists|minute: Option<String>| #[trigger]
            report::zone_gave(moment as u64, minute) && (match minute {
                Some(minute) => t == minute@,
                None => t == "-"@,
            }),
{
    let minute = choose|minute: Option<String>| #[trigger]
        report::zone_gave(moment as u64, minute) && t == text::or_else(minute.deep_view(), "-"@);
    assert(report::zone_gave(moment as u64, minute));
}

/// Every moment up to the end of the year 262142 can be shown, and every quota
/// of which not more than `i64` holds is left.
pub proof fn law_what_can_be_shown(row: AccountView)
    ensures
        report::showable(None),
        forall|moment: i64|
            moment <= 8_210_266_876_799 ==> #[trigger] report::showable(Some(moment)),
        report::countable(None),
        forall|used: i64| -9_223_372_036_854_775_707 <= used ==> #[trigger] report::countable(
            Some(used),
        ),
        report::countable(row.primary_used_percent) && report::countable(row.secondary_used_percent)
            && report::showable(row.primary_resets_at) && report::showable(row.last_probe_at)
            && report::showable(row.last_probe_ok_at) && report::showable(row.last_refresh_ok_at)
            && report::showable(row.snapshot_updated_at) && report::showable(row.cooldown_until)
            && report::showable(row.next_probe_due_at) && report::showable(row.next_refresh_due_at)
            && report::showable(row.last_switched_at) ==> report::row_showable(row),
{
}

/// Each moment in the line about a stored account is shown as what it is: that of
/// the account, and of no other event.
pub proof fn law_moments_are_those_of_the_account(row: AccountView, times: RowTimesView)
    ensures
        report::times_show(row, times) ==> {
            &&& report::is_shown(row.primary_resets_at, times.primary_resets_at)
            &&& report::is_shown(row.last_probe_at, times.last_probe_at)
            &&& row.last_probe_ok_at is Some ==> report::is_shown(
                row.last_probe_ok_at,
                times.last_ok_at,
            )
            &&& row.last_probe_ok_at is None ==> report::is_shown(
                row.last_refresh_ok_at,
                times.last_ok_at,
            )
            &&& report::is_shown(row.snapshot_updated_at, times.snapshot_updated_at)
        },
        report::times_show(row, times) || report::suffix_times_show(row, times) ==> {
            &&& report::is_shown(row.cooldown_until, times.cooldown_until)
            &&& report::is_shown(row.next_probe_due_at, times.next_probe_due_at)
            &&& report::is_shown(row.next_refresh_due_at, times.next_refresh_due_at)
            &&& report::is_shown(row.last_switched_at, times.last_switched_at)
        },
{
}

} // verus!
