//! The lines in which the pool speaks of its accounts.

use vstd::prelude::*;
use vstd::string::*;

use crate::db;
use crate::db::{display_name, epoch_now, AccountRow, AccountView};
use crate::text;
use crate::text::{decimal, digits_of};

verus! {

/// The last moment that `chrono` can show, in seconds since 1970: the end of
/// the year 262142.
pub const LAST_MOMENT: i64 = 8_210_266_876_799;

/// Whether a moment can be shown: there is none, it lies before 1970, or
/// `chrono` can show it.
pub open spec fn showable(timestamp: Option<i64>) -> bool {
    match timestamp {
        Some(moment) => moment <= LAST_MOMENT,
        None => true,
    }
}

/// Whether a character is a decimal digit.
pub open spec fn digit(c: char) -> bool {
    '0' <= c <= '9'
}

/// Whether a text is a month, a day, an hour and a minute, two digits each.
pub open spec fn minute_text(t: Seq<char>) -> bool {
    &&& t.len() == 11
    &&& digit(t[0]) && digit(t[1]) && t[2] == '-' && digit(t[3]) && digit(t[4])
    &&& t[5] == ' '
    &&& digit(t[6]) && digit(t[7]) && t[8] == ':' && digit(t[9]) && digit(t[10])
}

/// Whether a year has a day more.
pub open spec fn leap_year(year: int) -> bool {
    year % 4 == 0 && (year % 100 != 0 || year % 400 == 0)
}

/// The days of a month.
pub open spec fn month_days(year: int, month: int) -> int {
    if month == 2 {
        if leap_year(year) {
            29
        } else {
            28
        }
    } else if month == 4 || month == 6 || month == 9 || month == 11 {
        30
    } else {
        31
    }
}

/// The days of a year before a month.
pub open spec fn days_before_month(year: int, month: int) -> int
    decreases month,
{
    if month <= 1 {
        0
    } else {
        days_before_month(year, month - 1) + month_days(year, month - 1)
    }
}

/// The days from the beginning of 1970 to that of a year: 365 for each year, and
/// one more for each leap year.
pub open spec fn days_before_year(year: int) -> int {
    let past = year - 1;
    365 * (year - 1970) + (past / 4 - past / 100 + past / 400) - 477
}

/// Whether a day, counted from the first of 1970, falls on a date.
pub open spec fn falls_on(number: int, year: int, month: int, day: int) -> bool {
    &&& 1 <= month <= 12
    &&& 1 <= day <= month_days(year, month)
    &&& number == days_before_year(year) + days_before_month(year, month) + day - 1
}

/// A number below a hundred in two digits.
pub open spec fn two_digits(n: int) -> Seq<char> {
    seq![text::digit_char(n / 10), text::digit_char(n % 10)]
}

/// The month, the day, the hour and the minute of a moment, two digits each,
/// given its date.
pub open spec fn clock_text(seconds: int, month: int, day: int) -> Seq<char> {
    two_digits(month) + seq!['-'] + two_digits(day) + seq![' '] + two_digits(
        seconds % 86_400 / 3600,
    ) + seq![':'] + two_digits(seconds % 3600 / 60)
}

/// Whether a text shows the minute of a moment, where clocks are ahead of UTC by
/// some seconds.
pub open spec fn shows_minute(seconds: int, ahead: int, t: Seq<char>) -> bool {
    exists|year: int, month: int, day: int| #[trigger]
        falls_on((seconds + ahead) / 86_400, year, month, day) && t == clock_text(
            seconds + ahead,
            month,
            day,
        )
}

/// Whether a text shows the minute of a moment in some time zone, less than a
/// day ahead of UTC or behind it.
pub open spec fn is_minute_of(seconds: int, t: Seq<char>) -> bool {
    exists|ahead: int| -86_400 < ahead < 86_400 && #[trigger] shows_minute(seconds, ahead, t)
}

/// A division by a number goes up by one where the number divides the next.
#[verifier::spinoff_prover]
proof fn lemma_division_step(past: int, by: int)
    requires
        by == 4 || by == 100 || by == 400,
    ensures
        (past + 1) / by == past / by + (if (past + 1) % by == 0 {
            1int
        } else {
            0
        }),
{
    if by == 4 {
        assert((past + 1) / 4 == past / 4 + (if (past + 1) % 4 == 0 {
            1int
        } else {
            0
        }));
    } else if by == 100 {
        assert((past + 1) / 100 == past / 100 + (if (past + 1) % 100 == 0 {
            1int
        } else {
            0
        }));
    } else {
        assert((past + 1) / 400 == past / 400 + (if (past + 1) % 400 == 0 {
            1int
        } else {
            0
        }));
    }
}

/// A year has 365 days, and a leap year one more.
#[verifier::spinoff_prover]
proof fn lemma_year_length(year: int)
    ensures
        days_before_year(year + 1) == days_before_year(year) + (if leap_year(year) {
            366int
        } else {
            365
        }),
{
    lemma_division_step(year - 1, 4);
    lemma_division_step(year - 1, 100);
    lemma_division_step(year - 1, 400);
    lemma_centuries(year);
}

/// A century begins with a year that four divides, and so does every fourth
/// century with one that a hundred divides.
#[verifier::spinoff_prover]
proof fn lemma_centuries(year: int)
    ensures
        year % 100 == 0 ==> year % 4 == 0,
        year % 400 == 0 ==> year % 100 == 0,
{
    vstd::arithmetic::div_mod::lemma_mod_mod(year, 4, 25);
    vstd::arithmetic::div_mod::lemma_mod_mod(year, 100, 4);
}

/// The year before another one ends before it.
proof fn lemma_years_ascend(year: int, later: int)
    requires
        year < later,
    ensures
        days_before_year(year) + (if leap_year(year) {
            366int
        } else {
            365
        }) <= days_before_year(later),
    decreases later - year,
{
    lemma_year_length(year);
    if year + 1 < later {
        lemma_years_ascend(year + 1, later);
    }
}

/// A month ends before the next one begins, and the last one with the year.
proof fn lemma_months_ascend(year: int, month: int, later: int)
    requires
        1 <= month < later <= 13,
    ensures
        days_before_month(year, month) + month_days(year, month) <= days_before_month(year, later),
    decreases later - month,
{
    if month + 1 < later {
        lemma_months_ascend(year, month, later - 1);
    }
}

/// The days of all months make up the year.
proof fn lemma_month_sum(year: int)
    ensures
        days_before_month(year, 13) == (if leap_year(year) {
            366int
        } else {
            365
        }),
{
    reveal_with_fuel(days_before_month, 14);
}

/// The days before a month are not fewer than none.
proof fn lemma_month_start(year: int, month: int)
    requires
        1 <= month,
    ensures
        0 <= days_before_month(year, month),
    decreases month,
{
    if month > 1 {
        lemma_month_start(year, month - 1);
    }
}

/// A day falls on one date only: what is shown of a moment is settled by the
/// time zone.
pub proof fn law_one_date(
    number: int,
    year: int,
    month: int,
    day: int,
    other_year: int,
    other_month: int,
    other_day: int,
)
    requires
        falls_on(number, year, month, day),
        falls_on(number, other_year, other_month, other_day),
    ensures
        (year, month, day) == (other_year, other_month, other_day),
{
    lemma_month_sum(year);
    lemma_month_sum(other_year);
    lemma_months_ascend(year, month, 13);
    lemma_months_ascend(other_year, other_month, 13);
    lemma_month_start(year, month);
    lemma_month_start(other_year, other_month);
    if year < other_year {
        lemma_years_ascend(year, other_year);
    } else if other_year < year {
        lemma_years_ascend(other_year, year);
    } else if month < other_month {
        lemma_months_ascend(year, month, other_month);
    } else if other_month < month {
        lemma_months_ascend(year, other_month, month);
    }
}

/// A minute is shown as a month, a day, an hour and a minute, two digits each.
pub proof fn law_minute_shape(seconds: int, t: Seq<char>)
    requires
        is_minute_of(seconds, t),
    ensures
        minute_text(t),
{
    let ahead = choose|ahead: int|
        -86_400 < ahead < 86_400 && #[trigger] shows_minute(seconds, ahead, t);
    let (year, month, day) = choose|year: int, month: int, day: int| #[trigger]
        falls_on((seconds + ahead) / 86_400, year, month, day) && t == clock_text(
            seconds + ahead,
            month,
            day,
        );
    assert(1 <= month <= 12 && 1 <= day <= 31);
}

/// Whether a text shows a moment: a dash for none and for those before 1970.
/// A dash stands too for a moment that `SystemTime` cannot hold.
pub open spec fn shows(timestamp: Option<i64>, t: Seq<char>) -> bool {
    match shown_seconds(timestamp) {
        Some(seconds) => is_minute_of(seconds as int, t) || t == "-"@,
        None => t == "-"@,
    }
}

/// `chrono` shows a moment in the time zone of the machine, as month, day, hour
/// and minute: `DateTime::<Local>::from` of a `SystemTime` and `format`. A time
/// zone is a `FixedOffset` of less than a day. It panics on a moment after the
/// last that it knows. Which time zone it is hangs on the machine and is not
/// stated; nothing comes back where `SystemTime` cannot hold the moment, and
/// which moments those are hangs on the machine too.
#[verifier::external_body]
pub(crate) fn local_minute(seconds: u64) -> (shown: Option<String>)
    requires
        seconds <= LAST_MOMENT,
    ensures
        shown matches Some(text) ==> is_minute_of(seconds as int, text@),
{
    std::time::UNIX_EPOCH
        .checked_add(std::time::Duration::from_secs(seconds))
        .map(chrono::DateTime::<chrono::Local>::from)
        .map(|moment| moment.format("%m-%d %H:%M").to_string())
}

/// Whether a minute is what `chrono` gave for a moment when it was asked.
pub closed spec fn zone_gave(seconds: u64, minute: Option<String>) -> bool {
    call_ensures(local_minute, (seconds,), minute)
}

/// Whether a text is what is shown of a moment: what `chrono` gave for that very
/// moment, or a dash where it gave nothing or there is nothing to ask.
pub open spec fn is_shown(timestamp: Option<i64>, t: Seq<char>) -> bool {
    match shown_seconds(timestamp) {
        Some(seconds) => exists|minute: Option<String>| #[trigger]
            zone_gave(seconds, minute) && t == text::or_else(minute.deep_view(), "-"@),
        None => t == "-"@,
    }
}

/// What is shown of a moment from 1970 on is what `chrono` gave for that very
/// second, or a dash where it gave nothing.
pub(crate) proof fn law_shown_comes_from_the_zone(moment: i64, t: Seq<char>)
    requires
        moment >= 0,
        is_shown(Some(moment), t),
    ensures
        exists|minute: Option<String>| #[trigger]
            call_ensures(local_minute, (moment as u64,), minute) && (match minute {
                Some(minute) => t == minute@,
                None => t == "-"@,
            }),
{
    let minute = choose|minute: Option<String>| #[trigger]
        zone_gave(moment as u64, minute) && t == text::or_else(minute.deep_view(), "-"@);
    assert(call_ensures(local_minute, (moment as u64,), minute));
}

/// Asks for the minute of a moment.
fn ask<F: FnOnce(u64) -> Option<String>>(zone: F, seconds: u64) -> (minute: Option<String>)
    requires
        zone.requires((seconds,)),
    ensures
        zone.ensures((seconds,), minute),
{
    zone(seconds)
}

/// The seconds since 1970 that are shown: none where no moment is set, or one
/// before 1970.
pub open spec fn shown_seconds(timestamp: Option<i64>) -> Option<u64> {
    match timestamp {
        Some(moment) if moment >= 0 => Some(moment as u64),
        _ => None,
    }
}

/// The seconds since 1970 that are shown.
pub fn seconds_to_show(timestamp: Option<i64>) -> (seconds: Option<u64>)
    ensures
        seconds == shown_seconds(timestamp),
{
    match timestamp {
        Some(moment) => if moment >= 0 {
            Some(moment as u64)
        } else {
            None
        },
        None => None,
    }
}

/// A minute as it is shown, or a dash where there is none.
pub fn minute_or_dash(minute: Option<String>) -> (shown: String)
    ensures
        shown@ == text::or_else(minute.deep_view(), "-"@),
{
    match minute {
        Some(minute) => minute,
        None => "-".to_owned(),
    }
}

/// Shows a moment in the time zone of the machine.
pub fn format_epoch(timestamp: Option<i64>) -> (shown: String)
    requires
        showable(timestamp),
    ensures
        shows(timestamp, shown@),
        is_shown(timestamp, shown@),
{
    match seconds_to_show(timestamp) {
        Some(seconds) => {
            let minute = ask(local_minute, seconds);
            assert(zone_gave(seconds, minute));
            minute_or_dash(minute)
        },
        None => "-".to_owned(),
    }
}

/// Whether a moment can be shown.
pub fn is_showable(timestamp: Option<i64>) -> (yes: bool)
    ensures
        yes == showable(timestamp),
{
    match timestamp {
        Some(moment) => moment <= LAST_MOMENT,
        None => true,
    }
}

/// Whether what is left of a quota can be told.
pub open spec fn countable(used_percent: Option<i64>) -> bool {
    match used_percent {
        Some(used) => 100 - used <= i64::MAX,
        None => true,
    }
}

/// Whether what is left of a quota can be told.
pub fn is_countable(used_percent: Option<i64>) -> (yes: bool)
    ensures
        yes == countable(used_percent),
{
    match used_percent {
        Some(used) => used >= 100 - i64::MAX,
        None => true,
    }
}

/// What is left of a quota, in percent; a dash where that is not known.
pub open spec fn left_text(used_percent: Option<i64>) -> Seq<char> {
    match used_percent {
        Some(used) => text::decimal_text(
            if used < 100 {
                100 - used
            } else {
                0
            },
        ) + "%"@,
        None => "-"@,
    }
}

/// What is left of a quota, in percent.
pub fn percent_left(used_percent: Option<i64>) -> (left: String)
    requires
        countable(used_percent),
    ensures
        left@ == left_text(used_percent),
{
    match used_percent {
        Some(used) => {
            let rest: i64 = if used < 100 {
                100 - used
            } else {
                0
            };
            let mut left = decimal(rest);
            left.append("%");
            left
        },
        None => "-".to_owned(),
    }
}

/// Yes or no.
pub open spec fn yes_no(value: Option<bool>) -> Seq<char> {
    if value == Some(true) {
        "yes"@
    } else {
        "no"@
    }
}

/// Yes or no; no where it is not known.
pub fn bool_to_yes_no(value: Option<bool>) -> (word: &'static str)
    ensures
        word@ == yes_no(value),
{
    match value {
        Some(true) => "yes",
        _ => "no",
    }
}

/// What the quota of an account allows. The longer window counts only where
/// nothing is known of the shorter one.
pub open spec fn status_of(primary: Option<i64>, secondary: Option<i64>) -> Seq<char> {
    if primary is Some {
        if primary->0 >= 100 {
            "full"@
        } else {
            "usable"@
        }
    } else if secondary is Some && secondary->0 >= 100 {
        "full"@
    } else {
        "quota_unknown"@
    }
}

/// What the quota of an account allows.
pub fn display_status(
    primary_used_percent: Option<i64>,
    secondary_used_percent: Option<i64>,
) -> (status: &'static str)
    ensures
        status@ == status_of(primary_used_percent, secondary_used_percent),
{
    match primary_used_percent {
        Some(primary) => if primary >= 100 {
            "full"
        } else {
            "usable"
        },
        None => match secondary_used_percent {
            Some(secondary) => if secondary >= 100 {
                "full"
            } else {
                "quota_unknown"
            },
            None => "quota_unknown",
        },
    }
}

/// The line about an account that has just been refreshed, given how the end of
/// its window is shown.
pub open spec fn live_text(
    name: Seq<char>,
    plan: Option<Seq<char>>,
    primary_used_percent: Option<i64>,
    secondary_used_percent: Option<i64>,
    reset: Seq<char>,
    credits_has_credits: Option<bool>,
    ok: bool,
    error: Option<Seq<char>>,
) -> Seq<char> {
    if ok {
        let base = "[refresh] "@ + name + "  plan="@ + text::or_else(plan, "-"@) + "  5h="@
            + left_text(primary_used_percent) + " left  weekly="@ + left_text(
            secondary_used_percent,
        ) + " left  reset_5h="@ + reset + "  credits="@ + yes_no(credits_has_credits)
            + "  status="@ + status_of(primary_used_percent, secondary_used_percent);
        match error {
            Some(warning) => base + "  warning="@ + warning,
            None => base,
        }
    } else {
        "[refresh] "@ + name + "  status=error  reason="@ + text::or_else(error, "unknown"@)
    }
}

/// The line about an account that has just been refreshed, given how the end of
/// its window is shown.
pub fn live_line(
    name: &str,
    plan: Option<&str>,
    primary_used_percent: Option<i64>,
    secondary_used_percent: Option<i64>,
    reset: &str,
    credits_has_credits: Option<bool>,
    ok: bool,
    error: Option<&str>,
) -> (line: String)
    requires
        ok ==> countable(primary_used_percent) && countable(secondary_used_percent),
    ensures
        line@ == live_text(
            name@,
            plan.deep_view(),
            primary_used_percent,
            secondary_used_percent,
            reset@,
            credits_has_credits,
            ok,
            error.deep_view(),
        ),
{
    let mut line = "[refresh] ".to_owned();
    line.append(name);
    if ok {
        line.append("  plan=");
        line.append(
            match plan {
                Some(plan) => plan,
                None => "-",
            },
        );
        line.append("  5h=");
        line.append(percent_left(primary_used_percent).as_str());
        line.append(" left  weekly=");
        line.append(percent_left(secondary_used_percent).as_str());
        line.append(" left  reset_5h=");
        line.append(reset);
        line.append("  credits=");
        line.append(bool_to_yes_no(credits_has_credits));
        line.append("  status=");
        line.append(display_status(primary_used_percent, secondary_used_percent));
        if let Some(warning) = error {
            line.append("  warning=");
            line.append(warning);
        }
    } else {
        line.append("  status=error  reason=");
        line.append(
            match error {
                Some(error) => error,
                None => "unknown",
            },
        );
    }
    line
}

/// The line about an account that has just been refreshed.
pub fn format_live_row(
    row: &AccountRow,
    email: Option<&str>,
    plan: Option<&str>,
    primary_used_percent: Option<i64>,
    secondary_used_percent: Option<i64>,
    primary_resets_at: Option<i64>,
    credits_has_credits: Option<bool>,
    ok: bool,
    error: Option<&str>,
) -> (line: String)
    requires
        ok ==> countable(primary_used_percent) && countable(secondary_used_percent) && showable(
            primary_resets_at,
        ),
    ensures
        exists|reset: Seq<char>|
            shows(primary_resets_at, reset) && (ok ==> is_shown(primary_resets_at, reset)) && line@
                == #[trigger] live_text(
                text::or_else(email.deep_view(), row@.account_key),
                plan.deep_view(),
                primary_used_percent,
                secondary_used_percent,
                reset,
                credits_has_credits,
                ok,
                error.deep_view(),
            ),
{
    let name = match email {
        Some(email) => email,
        None => row.account_key.as_str(),
    };
    let reset = if ok {
        format_epoch(primary_resets_at)
    } else {
        "-".to_owned()
    };
    assert(shows(primary_resets_at, reset@));
    assert(name@ == text::or_else(email.deep_view(), row@.account_key));
    live_line(
        name,
        plan,
        primary_used_percent,
        secondary_used_percent,
        reset.as_str(),
        credits_has_credits,
        ok,
        error,
    )
}

/// How the moments of an account are shown.
pub struct RowTimes {
    pub primary_resets_at: String,
    pub last_probe_at: String,
    pub last_ok_at: String,
    pub snapshot_updated_at: String,
    pub cooldown_until: String,
    pub next_probe_due_at: String,
    pub next_refresh_due_at: String,
    pub last_switched_at: String,
}

/// What a `RowTimes` says.
#[verifier::ext_equal]
pub struct RowTimesView {
    pub primary_resets_at: Seq<char>,
    pub last_probe_at: Seq<char>,
    pub last_ok_at: Seq<char>,
    pub snapshot_updated_at: Seq<char>,
    pub cooldown_until: Seq<char>,
    pub next_probe_due_at: Seq<char>,
    pub next_refresh_due_at: Seq<char>,
    pub last_switched_at: Seq<char>,
}

impl View for RowTimes {
    type V = RowTimesView;

    open spec fn view(&self) -> RowTimesView {
        RowTimesView {
            primary_resets_at: self.primary_resets_at@,
            last_probe_at: self.last_probe_at@,
            last_ok_at: self.last_ok_at@,
            snapshot_updated_at: self.snapshot_updated_at@,
            cooldown_until: self.cooldown_until@,
            next_probe_due_at: self.next_probe_due_at@,
            next_refresh_due_at: self.next_refresh_due_at@,
            last_switched_at: self.last_switched_at@,
        }
    }
}

/// The moment at which an account was last seen to be well.
pub open spec fn last_ok_at(row: AccountView) -> Option<i64> {
    text::first_of(row.last_probe_ok_at, row.last_refresh_ok_at)
}

/// Whether every moment and every quota of an account can be shown.
pub open spec fn row_showable(row: AccountView) -> bool {
    &&& countable(row.primary_used_percent)
    &&& countable(row.secondary_used_percent)
    &&& showable(row.primary_resets_at)
    &&& showable(row.last_probe_at)
    &&& showable(last_ok_at(row))
    &&& showable(row.snapshot_updated_at)
    &&& showable(row.cooldown_until)
    &&& showable(row.next_probe_due_at)
    &&& showable(row.next_refresh_due_at)
    &&& showable(row.last_switched_at)
}

/// Whether every moment and every quota of an account can be shown.
pub fn is_row_showable(row: &AccountRow) -> (yes: bool)
    ensures
        yes == row_showable(row@),
{
    let last_ok_at = match row.last_probe_ok_at {
        Some(moment) => Some(moment),
        None => row.last_refresh_ok_at,
    };
    is_countable(row.primary_used_percent) && is_countable(row.secondary_used_percent)
        && is_showable(row.primary_resets_at)
        && is_showable(row.last_probe_at)
        && is_showable(last_ok_at)
        && is_showable(row.snapshot_updated_at)
        && is_showable(row.cooldown_until)
        && is_showable(row.next_probe_due_at)
        && is_showable(row.next_refresh_due_at)
        && is_showable(row.last_switched_at)
}

/// Whether texts show the moments of an account.
pub open spec fn times_show(row: AccountView, times: RowTimesView) -> bool {
    &&& shows(row.primary_resets_at, times.primary_resets_at)
    &&& is_shown(row.primary_resets_at, times.primary_resets_at)
    &&& shows(row.last_probe_at, times.last_probe_at)
    &&& is_shown(row.last_probe_at, times.last_probe_at)
    &&& shows(last_ok_at(row), times.last_ok_at)
    &&& is_shown(last_ok_at(row), times.last_ok_at)
    &&& shows(row.snapshot_updated_at, times.snapshot_updated_at)
    &&& is_shown(row.snapshot_updated_at, times.snapshot_updated_at)
    &&& shows(row.cooldown_until, times.cooldown_until)
    &&& is_shown(row.cooldown_until, times.cooldown_until)
    &&& shows(row.next_probe_due_at, times.next_probe_due_at)
    &&& is_shown(row.next_probe_due_at, times.next_probe_due_at)
    &&& shows(row.next_refresh_due_at, times.next_refresh_due_at)
    &&& is_shown(row.next_refresh_due_at, times.next_refresh_due_at)
    &&& shows(row.last_switched_at, times.last_switched_at)
    &&& is_shown(row.last_switched_at, times.last_switched_at)
}

/// A part of a line that is there where a moment is set.
pub open spec fn moment_part(
    timestamp: Option<i64>,
    label: Seq<char>,
    shown: Seq<char>,
) -> Seq<char> {
    if timestamp is Some {
        label + shown
    } else {
        Seq::empty()
    }
}

/// The end of the line about a stored account: what is planned for it, when it
/// was last active, and its last error.
pub open spec fn suffix_text(row: AccountView, times: RowTimesView) -> Seq<char> {
    let planned = moment_part(row.cooldown_until, "  cooldown_until="@, times.cooldown_until)
        + moment_part(row.next_probe_due_at, "  next_probe="@, times.next_probe_due_at)
        + moment_part(row.next_refresh_due_at, "  next_refresh="@, times.next_refresh_due_at)
        + moment_part(row.last_switched_at, "  last_switch="@, times.last_switched_at);
    match row.last_error {
        Some(error) => planned + "  last_error_kind="@ + text::or_else(row.last_error_kind, "-"@)
            + "  last_error="@ + error,
        None => planned,
    }
}

/// The state of a stored account.
pub open spec fn cached_status(row: AccountView, now: i64) -> Seq<char> {
    if row.cooldown_until is Some && row.cooldown_until->0 > now {
        "cooling_down"@
    } else if row.probe_fail_count > 0 {
        "stale"@
    } else {
        "cached"@
    }
}

/// The line about a stored account, given the time and how its moments are
/// shown.
pub open spec fn cached_text(
    index: nat,
    total: nat,
    row: AccountView,
    now: i64,
    times: RowTimesView,
) -> Seq<char> {
    "["@ + text::digits(index) + "/"@ + text::digits(total) + "] "@ + db::listed_name(row)
        + "  account_id="@ + text::or_else(row.account_id, "-"@) + "  plan="@ + text::or_else(
        row.plan,
        "-"@,
    ) + "  5h="@ + left_text(row.primary_used_percent) + " left  weekly="@ + left_text(
        row.secondary_used_percent,
    ) + " left  reset_5h="@ + times.primary_resets_at + "  credits="@ + yes_no(
        row.credits_has_credits,
    ) + "  last_refresh="@ + text::or_else(row.last_refresh, "-"@) + "  last_probe="@
        + times.last_probe_at + "  last_ok="@ + times.last_ok_at + "  refresh_failures="@
        + text::decimal_text(row.refresh_fail_count as int) + "  snapshot="@
        + times.snapshot_updated_at + "  status="@ + cached_status(row, now) + suffix_text(
        row,
        times,
    )
}

/// Adds a part to a line where a moment is set.
fn append_moment(line: &mut String, timestamp: Option<i64>, label: &str, shown: &str)
    ensures
        final(line)@ == old(line)@ + moment_part(timestamp, label@, shown@),
{
    if timestamp.is_some() {
        let ghost before = line@;
        line.append(label);
        line.append(shown);
        assert(line@ =~= before + (label@ + shown@));
    } else {
        assert(line@ =~= line@ + Seq::<char>::empty());
    }
}

/// A text that may be missing, or a dash.
fn or_dash(text: &Option<String>) -> (shown: &str)
    ensures
        shown@ == text::or_else(text.deep_view(), "-"@),
{
    match text {
        Some(text) => text.as_str(),
        None => "-",
    }
}

/// The end of the line about a stored account, given how its moments are shown.
pub fn error_suffix(row: &AccountRow, times: &RowTimes) -> (suffix: String)
    ensures
        suffix@ == suffix_text(row@, times@),
{
    let mut suffix = String::new();
    append_moment(
        &mut suffix,
        row.cooldown_until,
        "  cooldown_until=",
        times.cooldown_until.as_str(),
    );
    assert(suffix@ =~= moment_part(
        row.cooldown_until,
        "  cooldown_until="@,
        times.cooldown_until@,
    ));
    append_moment(
        &mut suffix,
        row.next_probe_due_at,
        "  next_probe=",
        times.next_probe_due_at.as_str(),
    );
    append_moment(
        &mut suffix,
        row.next_refresh_due_at,
        "  next_refresh=",
        times.next_refresh_due_at.as_str(),
    );
    append_moment(
        &mut suffix,
        row.last_switched_at,
        "  last_switch=",
        times.last_switched_at.as_str(),
    );
    if let Some(error) = &row.last_error {
        suffix.append("  last_error_kind=");
        suffix.append(or_dash(&row.last_error_kind));
        suffix.append("  last_error=");
        suffix.append(error.as_str());
    }
    suffix
}

/// The line about a stored account, given the time and how its moments are
/// shown.
pub fn cached_line(
    index: usize,
    total: usize,
    row: &AccountRow,
    now: i64,
    times: &RowTimes,
) -> (line: String)
    requires
        countable(row.primary_used_percent),
        countable(row.secondary_used_percent),
    ensures
        line@ == cached_text(index as nat, total as nat, row@, now, times@),
{
    let cooling = match row.cooldown_until {
        Some(moment) => moment > now,
        None => false,
    };
    let status = if cooling {
        "cooling_down"
    } else if row.probe_fail_count > 0 {
        "stale"
    } else {
        "cached"
    };
    let mut line = "[".to_owned();
    line.append(digits_of(index as u64).as_str());
    line.append("/");
    line.append(digits_of(total as u64).as_str());
    line.append("] ");
    line.append(display_name(row));
    line.append("  account_id=");
    line.append(or_dash(&row.account_id));
    line.append("  plan=");
    line.append(or_dash(&row.plan));
    line.append("  5h=");
    line.append(percent_left(row.primary_used_percent).as_str());
    line.append(" left  weekly=");
    line.append(percent_left(row.secondary_used_percent).as_str());
    line.append(" left  reset_5h=");
    line.append(times.primary_resets_at.as_str());
    line.append("  credits=");
    line.append(bool_to_yes_no(row.credits_has_credits));
    line.append("  last_refresh=");
    line.append(or_dash(&row.last_refresh));
    line.append("  last_probe=");
    line.append(times.last_probe_at.as_str());
    line.append("  last_ok=");
    line.append(times.last_ok_at.as_str());
    line.append("  refresh_failures=");
    line.append(decimal(row.refresh_fail_count).as_str());
    line.append("  snapshot=");
    line.append(times.snapshot_updated_at.as_str());
    line.append("  status=");
    line.append(status);
    line.append(error_suffix(row, times).as_str());
    line
}

/// Shows the moments of an account in the time zone of the machine.
pub fn show_times(row: &AccountRow) -> (times: RowTimes)
    requires
        row_showable(row@),
    ensures
        times_show(row@, times@),
{
    let last_ok_at = match row.last_probe_ok_at {
        Some(moment) => Some(moment),
        None => row.last_refresh_ok_at,
    };
    RowTimes {
        primary_resets_at: format_epoch(row.primary_resets_at),
        last_probe_at: format_epoch(row.last_probe_at),
        last_ok_at: format_epoch(last_ok_at),
        snapshot_updated_at: format_epoch(row.snapshot_updated_at),
        cooldown_until: format_epoch(row.cooldown_until),
        next_probe_due_at: format_epoch(row.next_probe_due_at),
        next_refresh_due_at: format_epoch(row.next_refresh_due_at),
        last_switched_at: format_epoch(row.last_switched_at),
    }
}

/// Whether the moments at the end of the line about a stored account can be
/// shown.
pub open spec fn suffix_showable(row: AccountView) -> bool {
    &&& showable(row.cooldown_until)
    &&& showable(row.next_probe_due_at)
    &&& showable(row.next_refresh_due_at)
    &&& showable(row.last_switched_at)
}

/// Whether texts show the moments at the end of the line about a stored
/// account.
pub open spec fn suffix_times_show(row: AccountView, times: RowTimesView) -> bool {
    &&& shows(row.cooldown_until, times.cooldown_until)
    &&& is_shown(row.cooldown_until, times.cooldown_until)
    &&& shows(row.next_probe_due_at, times.next_probe_due_at)
    &&& is_shown(row.next_probe_due_at, times.next_probe_due_at)
    &&& shows(row.next_refresh_due_at, times.next_refresh_due_at)
    &&& is_shown(row.next_refresh_due_at, times.next_refresh_due_at)
    &&& shows(row.last_switched_at, times.last_switched_at)
    &&& is_shown(row.last_switched_at, times.last_switched_at)
}

/// The end of the line about a stored account.
pub fn format_error_suffix(row: &AccountRow) -> (suffix: String)
    requires
        suffix_showable(row@),
    ensures
        exists|times: RowTimesView|
            suffix_times_show(row@, times) && suffix@ == #[trigger] suffix_text(row@, times),
{
    let times = RowTimes {
        primary_resets_at: String::new(),
        last_probe_at: String::new(),
        last_ok_at: String::new(),
        snapshot_updated_at: String::new(),
        cooldown_until: format_epoch(row.cooldown_until),
        next_probe_due_at: format_epoch(row.next_probe_due_at),
        next_refresh_due_at: format_epoch(row.next_refresh_due_at),
        last_switched_at: format_epoch(row.last_switched_at),
    };
    error_suffix(row, &times)
}

/// The line about a stored account.
pub fn format_cached_row(index: usize, total: usize, row: &AccountRow) -> (line: String)
    requires
        row_showable(row@),
    ensures
        exists|now: i64, times: RowTimesView|
            db::is_present(now) && times_show(row@, times) && line@ == #[trigger] cached_text(
                index as nat,
                total as nat,
                row@,
                now,
                times,
            ),
{
    let now = epoch_now();
    let times = show_times(row);
    cached_line(index, total, row, now, &times)
}

} // verus!
