//! When an account is looked at again.

use vstd::prelude::*;

use crate::db;
use crate::db::AccountView;
use crate::schedule;

verus! {

/// A probe that went well is followed by the next one after an hour where less
/// than four fifths of the short window are used, after half an hour where less
/// than nineteen twentieths are, and after ten minutes where more are used or
/// nobody knows.
pub proof fn law_probe_by_what_is_used(primary_used_percent: Option<i64>)
    ensures
        primary_used_percent matches Some(used) ==> {
            &&& used < 80 ==> schedule::probe_delay(true, true, primary_used_percent) == 3600
            &&& 80 <= used < 95 ==> schedule::probe_delay(true, true, primary_used_percent) == 1800
            &&& 95 <= used ==> schedule::probe_delay(true, true, primary_used_percent) == 600
        },
        primary_used_percent is None ==> schedule::probe_delay(true, true, primary_used_percent)
            == 600,
{
}

/// Where the limits did not come back the next probe follows after a quarter of
/// an hour, and after a failure in five minutes, whatever is used.
pub proof fn law_probe_after_trouble(limits: bool, used: Option<i64>)
    ensures
        schedule::probe_delay(true, false, used) == 900,
        schedule::probe_delay(false, limits, used) == 300,
{
}

/// The next refresh follows after two hours, but after half an hour where the
/// last one lies more than a day back, and in five minutes after a failure.
pub proof fn law_refresh_by_age(now: i64, last_refresh: Option<i64>)
    ensures
        last_refresh matches Some(moment) ==> {
            &&& now - moment > 86_400 ==> schedule::refresh_delay(now, true, last_refresh) == 1800
            &&& now - moment <= 86_400 ==> schedule::refresh_delay(now, true, last_refresh) == 7200
        },
        last_refresh is None ==> schedule::refresh_delay(now, true, last_refresh) == 7200,
        schedule::refresh_delay(now, false, last_refresh) == 300,
{
}

/// The moment of a last refresh is the one that its text names.
pub proof fn law_last_refresh_is_read(value: Seq<char>)
    ensures
        schedule::moment_in(Some(value)) == schedule::rfc3339_epoch(value),
        schedule::moment_in(None) == None::<i64>,
{
}

/// A cooldown of three minutes follows on late limits, and of one on a busy
/// lock; a failure of a kind that nobody knows asks for five.
pub proof fn law_other_cooldowns(kind: Seq<char>)
    ensures
        schedule::cooldown_seconds(Some("rate_limits_timeout"@)) == 180,
        schedule::cooldown_seconds(Some("lock_busy"@)) == 60,
        schedule::cooldown_seconds(None) == 300,
        kind != "rate_limits_timeout"@ && kind != "account_read_timeout"@ && kind
            != "app_server_spawn"@ && kind != "app_server_exit"@ && kind != "auth_file_read"@
            && kind != "lock_busy"@ ==> schedule::cooldown_seconds(Some(kind)) == 300,
{
    reveal_strlit("rate_limits_timeout");
    reveal_strlit("account_read_timeout");
    reveal_strlit("app_server_spawn");
    reveal_strlit("app_server_exit");
    reveal_strlit("auth_file_read");
    reveal_strlit("lock_busy");
    assert("lock_busy"@[0] == 'l');
    assert("rate_limits_timeout"@[0] == 'r');
    assert("account_read_timeout"@[0] == 'a');
    assert("app_server_spawn"@[0] == 'a');
    assert("app_server_exit"@[0] == 'a');
    assert("auth_file_read"@[0] == 'a');
}

/// A cooldown begins with a failure and ends as many seconds later as its kind
/// asks for; where nothing failed there is none.
pub proof fn law_cooldown_end(now: i64, failure_kind: Option<Seq<char>>)
    requires
        now + schedule::cooldown_seconds(failure_kind) <= i64::MAX,
    ensures
        schedule::cooldown_end(now, true, failure_kind) is None,
        schedule::cooldown_end(now, false, failure_kind) matches Some(end) && end - now
            == schedule::cooldown_seconds(failure_kind),
{
}

/// An account that is due stays due as long as nothing happens to it.
pub proof fn law_due_stays_due(row: AccountView, now: i64, later: i64)
    requires
        now <= later,
        db::is_due(row, now),
    ensures
        db::is_due(row, later),
{
}

/// An account is due as soon as its next probe has come, and as soon as its next
/// refresh has, unless it is cooling down. One that was not planned yet is due.
pub proof fn law_due_when_planned(row: AccountView, now: i64)
    requires
        row.cooldown_until is None || row.cooldown_until->0 <= now,
    ensures
        row.next_probe_due_at is None || row.next_probe_due_at->0 <= now ==> db::is_due(row, now),
        row.next_refresh_due_at is None || row.next_refresh_due_at->0 <= now ==> db::is_due(
            row,
            now,
        ),
{
}

/// An account is not due while it is cooling down, nor while both its next probe
/// and its next refresh lie ahead.
pub proof fn law_not_due_ahead_of_time(row: AccountView, now: i64)
    ensures
        row.cooldown_until is Some && row.cooldown_until->0 > now ==> !db::is_due(row, now),
        row.next_probe_due_at is Some && row.next_probe_due_at->0 > now
            && row.next_refresh_due_at is Some && row.next_refresh_due_at->0 > now ==> !db::is_due(
            row,
            now,
        ),
{
}

/// The clock counts the seconds since 1970, and none before.
pub proof fn law_clock_counts_seconds(seconds: u64)
    requires
        seconds <= i64::MAX,
    ensures
        db::clock_seconds(Some(seconds)) == seconds,
        db::clock_seconds(None) == 0,
{
}

} // verus!
