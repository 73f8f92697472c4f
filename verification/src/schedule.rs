//! When an account is looked at again.

use vstd::prelude::*;

use crate::probe::ProbeFailureKind;
use crate::text;
use crate::text::same_text;

verus! {

/// The moment that `chrono` reads in a text in the format of RFC 3339, in
/// seconds since 1970.
pub uninterp spec fn rfc3339_epoch(value: Seq<char>) -> Option<i64>;

/// `chrono::DateTime::parse_from_rfc3339` reads a moment, and `timestamp` gives
/// it in seconds since 1970; nothing where the text is in another format.
#[verifier::external_body]
fn parse_rfc3339_epoch(value: &str) -> (moment: Option<i64>)
    ensures
        moment == rfc3339_epoch(value@),
{
    chrono::DateTime::parse_from_rfc3339(value).ok().map(|moment| moment.timestamp())
}

/// The moment that a text names, if there is a text.
pub open spec fn moment_in(value: Option<Seq<char>>) -> Option<i64> {
    match value {
        Some(value) => rfc3339_epoch(value),
        None => None,
    }
}

/// The seconds until the next probe of an account. One that failed is probed
/// soon; of the others, those with little quota left are probed more often.
pub open spec fn probe_delay(
    ok: bool,
    rate_limits_available: bool,
    primary_used_percent: Option<i64>,
) -> int {
    let used = text::or_else(primary_used_percent, 100);
    if !ok {
        300
    } else if !rate_limits_available {
        900
    } else if used >= 95 {
        600
    } else if used >= 80 {
        1800
    } else {
        3600
    }
}

/// The seconds until the next probe of an account.
pub fn probe_delay_for(
    ok: bool,
    rate_limits_available: bool,
    primary_used_percent: Option<i64>,
) -> (seconds: i64)
    ensures
        seconds == probe_delay(ok, rate_limits_available, primary_used_percent),
{
    if !ok {
        return 300;
    }
    if !rate_limits_available {
        return 900;
    }
    let used: i64 = match primary_used_percent {
        Some(used) => used,
        None => 100,
    };
    if used >= 95 {
        600
    } else if used >= 80 {
        1800
    } else {
        3600
    }
}

/// The moment of the next probe of an account.
pub fn compute_next_probe_due_at(
    now: i64,
    ok: bool,
    rate_limits_available: bool,
    primary_used_percent: Option<i64>,
) -> (due: i64)
    requires
        now + probe_delay(ok, rate_limits_available, primary_used_percent) <= i64::MAX,
    ensures
        due == now + probe_delay(ok, rate_limits_available, primary_used_percent),
{
    now + probe_delay_for(ok, rate_limits_available, primary_used_percent)
}

/// The seconds until the next refresh of an account, given the moment of its
/// last one: sooner where that lies more than a day back.
pub open spec fn refresh_delay(now: i64, ok: bool, last_refresh: Option<i64>) -> int {
    if !ok {
        300
    } else {
        match last_refresh {
            Some(moment) if now - moment > 86_400 => 1800,
            _ => 7200,
        }
    }
}

/// The seconds until the next refresh of an account, given the moment of its
/// last one.
pub fn refresh_delay_for(now: i64, ok: bool, last_refresh: Option<i64>) -> (seconds: i64)
    ensures
        seconds == refresh_delay(now, ok, last_refresh),
{
    if !ok {
        return 300;
    }
    let stale = match last_refresh {
        Some(moment) => now as i128 - moment as i128 > 86_400,
        None => false,
    };
    if stale {
        1800
    } else {
        7200
    }
}

/// The moment of the next refresh of an account, given the moment of its last
/// one.
pub fn refresh_due_at(now: i64, ok: bool, last_refresh: Option<i64>) -> (due: i64)
    requires
        now + refresh_delay(now, ok, last_refresh) <= i64::MAX,
    ensures
        due == now + refresh_delay(now, ok, last_refresh),
{
    now + refresh_delay_for(now, ok, last_refresh)
}

/// The moment that a text names, if there is a text.
pub(crate) fn moment_named(value: Option<&str>) -> (moment: Option<i64>)
    ensures
        moment == moment_in(value.deep_view()),
{
    match value {
        Some(value) => parse_rfc3339_epoch(value),
        None => None,
    }
}

/// The moment of the next refresh of an account, given what its credentials
/// say of the last one.
pub fn compute_next_refresh_due_at(
    now: i64,
    ok: bool,
    observed_last_refresh: Option<&str>,
) -> (due: i64)
    requires
        now + refresh_delay(now, ok, moment_in(observed_last_refresh.deep_view())) <= i64::MAX,
    ensures
        due == now + refresh_delay(now, ok, moment_in(observed_last_refresh.deep_view())),
{
    refresh_due_at(now, ok, moment_named(observed_last_refresh))
}

/// The seconds for which an account is left alone after a failure of a kind.
pub open spec fn cooldown_seconds(failure_kind: Option<Seq<char>>) -> int {
    if failure_kind == Some("rate_limits_timeout"@) {
        180
    } else if failure_kind == Some("account_read_timeout"@) {
        300
    } else if failure_kind == Some("app_server_spawn"@) || failure_kind == Some(
        "app_server_exit"@,
    ) {
        600
    } else if failure_kind == Some("auth_file_read"@) {
        900
    } else if failure_kind == Some("lock_busy"@) {
        60
    } else {
        300
    }
}

/// Until when an account is left alone.
pub open spec fn cooldown_end(now: i64, ok: bool, failure_kind: Option<Seq<char>>) -> Option<i64> {
    if ok {
        None
    } else {
        Some((now + cooldown_seconds(failure_kind)) as i64)
    }
}

/// The seconds for which an account is left alone after a failure of a kind.
pub fn cooldown_for(failure_kind: Option<&str>) -> (seconds: i64)
    ensures
        seconds == cooldown_seconds(failure_kind.deep_view()),
{
    match failure_kind {
        None => 300,
        Some(kind) => if same_text(kind, "rate_limits_timeout") {
            180
        } else if same_text(kind, "account_read_timeout") {
            300
        } else if same_text(kind, "app_server_spawn") || same_text(kind, "app_server_exit") {
            600
        } else if same_text(kind, "auth_file_read") {
            900
        } else if same_text(kind, "lock_busy") {
            60
        } else {
            300
        },
    }
}

/// Until when an account is left alone: after a failure for as long as its kind
/// asks for, and not at all otherwise.
pub fn compute_cooldown_until(now: i64, ok: bool, failure_kind: Option<&str>) -> (until: Option<
    i64,
>)
    requires
        !ok ==> now + cooldown_seconds(failure_kind.deep_view()) <= i64::MAX,
    ensures
        until == cooldown_end(now, ok, failure_kind.deep_view()),
{
    if ok {
        None
    } else {
        Some(now + cooldown_for(failure_kind))
    }
}

/// The word for a failure of a probe decides how long its account is left
/// alone: ten minutes where the app server did not run, five where it did not
/// answer in time, a quarter of an hour where the credentials cannot be read.
pub proof fn law_cooldown_by_kind(kind: ProbeFailureKind)
    ensures
        cooldown_seconds(Some(kind.word())) == match kind {
            ProbeFailureKind::AppServerSpawn => 600int,
            ProbeFailureKind::AppServerExit => 600,
            ProbeFailureKind::AccountReadTimeout => 300,
            ProbeFailureKind::AuthFileRead => 900,
        },
{
    reveal_strlit("rate_limits_timeout");
    reveal_strlit("account_read_timeout");
    reveal_strlit("app_server_spawn");
    reveal_strlit("app_server_exit");
    reveal_strlit("auth_file_read");
    assert("app_server_spawn"@[0] == 'a' && "rate_limits_timeout"@[0] == 'r');
    assert("app_server_exit"@[0] == 'a');
    assert("account_read_timeout"@[1] == 'c');
    assert("app_server_spawn"@[1] == 'p' && "app_server_exit"@[1] == 'p');
    assert("auth_file_read"@[1] == 'u');
    assert("auth_file_read"@[0] == 'a');
    assert("account_read_timeout"@[0] == 'a');
}

/// A failure keeps its account from being refreshed for a minute at least and a
/// quarter of an hour at most.
pub proof fn law_cooldown_is_bounded(failure_kind: Option<Seq<char>>)
    ensures
        60 <= cooldown_seconds(failure_kind) <= 900,
{
}

/// The more is used of the short window, the sooner an account is probed again.
pub proof fn law_fuller_is_probed_sooner(less: i64, more: i64)
    requires
        less <= more,
    ensures
        probe_delay(true, true, Some(more)) <= probe_delay(true, true, Some(less)),
{
}

} // verus!
