//! Which account becomes the active one, and what a refresh tells of an account.

use vstd::prelude::*;

use crate::commands;
use crate::db::AccountView;
use crate::json;
use crate::probe::{FailureView, SnapshotView};
use crate::refresh;
use crate::refresh::{Quota, RefreshOutcome, RefreshView};
use crate::report;

verus! {

/// What is used of the short window, in percent: all of it where that is not
/// known.
pub open spec fn short_used(quota: Quota) -> i64 {
    match quota.primary_used_percent {
        Some(used) => used,
        None => 100,
    }
}

/// What is used of the long window, in percent: all of it where that is not
/// known.
pub open spec fn long_used(quota: Quota) -> i64 {
    match quota.secondary_used_percent {
        Some(used) => used,
        None => 100,
    }
}

/// Whether something is known of a quota.
pub open spec fn is_known(quota: Quota) -> bool {
    quota.primary_used_percent is Some || quota.secondary_used_percent is Some
}

/// Of two accounts the one of whose quota something is known is better than one
/// of whose quota nothing is known.
pub proof fn law_known_before_unknown(a: Quota, b: Quota)
    requires
        is_known(a),
        !is_known(b),
    ensures
        refresh::better(refresh::quota_score(a), refresh::quota_score(b)),
        !refresh::better(refresh::quota_score(b), refresh::quota_score(a)),
{
}

/// Of two accounts with a known quota the one with less used of the short window
/// is better, whatever else is known of them.
pub proof fn law_less_of_the_short_window_is_better(a: Quota, b: Quota)
    requires
        is_known(a),
        is_known(b),
        short_used(a) < short_used(b),
    ensures
        refresh::better(refresh::quota_score(a), refresh::quota_score(b)),
        !refresh::better(refresh::quota_score(b), refresh::quota_score(a)),
{
}

/// Where as much is used of the short window, the account with less used of the
/// long one is better.
pub proof fn law_less_of_the_long_window_is_better(a: Quota, b: Quota)
    requires
        is_known(a),
        is_known(b),
        short_used(a) == short_used(b),
        long_used(a) < long_used(b),
    ensures
        refresh::better(refresh::quota_score(a), refresh::quota_score(b)),
        !refresh::better(refresh::quota_score(b), refresh::quota_score(a)),
{
}

/// Where as much is used of both windows, an account with unlimited credits is
/// better than one without; else one with credits than one without; else the
/// one whose short window ends first, an end that is not known being the last.
pub proof fn law_credits_and_resets_decide_last(a: Quota, b: Quota)
    requires
        is_known(a) == is_known(b),
        short_used(a) == short_used(b),
        long_used(a) == long_used(b),
    ensures
        a.credits_unlimited == Some(true) && b.credits_unlimited != Some(true) ==> refresh::better(
            refresh::quota_score(a),
            refresh::quota_score(b),
        ),
        a.credits_unlimited == b.credits_unlimited && a.credits_has_credits == Some(true)
            && b.credits_has_credits != Some(true) ==> refresh::better(
            refresh::quota_score(a),
            refresh::quota_score(b),
        ),
        a.credits_unlimited == b.credits_unlimited && a.credits_has_credits
            == b.credits_has_credits ==> (refresh::better(
            refresh::quota_score(a),
            refresh::quota_score(b),
        ) <==> a.primary_resets_at is Some && a.primary_resets_at->0 < match b.primary_resets_at {
            Some(end) => end,
            None => i64::MAX,
        }),
{
}

/// The quota that a refresh tells of.
pub open spec fn told_quota(result: RefreshView) -> Quota {
    Quota {
        primary_used_percent: result.primary_used_percent,
        secondary_used_percent: result.secondary_used_percent,
        primary_resets_at: result.primary_resets_at,
        credits_has_credits: result.credits_has_credits,
        credits_unlimited: result.credits_unlimited,
    }
}

/// Whether a refresh is scored by the quota that it tells of.
pub open spec fn scored_by_its_quota(result: RefreshView) -> bool {
    result.score == refresh::quota_score(told_quota(result))
}

/// Whatever a refresh comes to, it is scored by the quota that it tells of.
pub proof fn law_results_are_scored(
    row: AccountView,
    outcome: RefreshOutcome,
    result: RefreshView,
)
    requires
        refresh::comes_to(row, outcome, result),
    ensures
        scored_by_its_quota(result),
{
}

/// The account that is chosen was refreshed well, and no other account that was
/// has less used of the short window, or as much of it and less of the long one.
pub proof fn law_chosen_has_least_used(results: Seq<RefreshView>, best: int, i: int)
    requires
        refresh::is_best(results, best),
        0 <= i < results.len(),
        results[i].ok,
        !results[i].skipped,
        scored_by_its_quota(results[i]),
        scored_by_its_quota(results[best]),
        is_known(told_quota(results[i])),
    ensures
        results[best].ok && !results[best].skipped,
        is_known(told_quota(results[best])),
        short_used(told_quota(results[best])) <= short_used(told_quota(results[i])),
        short_used(told_quota(results[best])) == short_used(told_quota(results[i])) ==> long_used(
            told_quota(results[best]),
        ) <= long_used(told_quota(results[i])),
{
    let chosen = told_quota(results[best]);
    let other = told_quota(results[i]);
    if !is_known(chosen) {
        law_known_before_unknown(other, chosen);
    } else if short_used(other) < short_used(chosen) {
        law_less_of_the_short_window_is_better(other, chosen);
    } else if short_used(other) == short_used(chosen) && long_used(other) < long_used(chosen) {
        law_less_of_the_long_window_is_better(other, chosen);
    }
}

/// Of accounts that are as good, the first is chosen.
pub proof fn law_first_of_equals_is_chosen(results: Seq<RefreshView>, best: int, i: int)
    requires
        refresh::is_best(results, best),
        0 <= i < results.len(),
        results[i].ok,
        !results[i].skipped,
        results[i].score == results[best].score,
    ensures
        best <= i,
{
    refresh::law_better_is_an_order(results[i].score, results[best].score, results[best].score);
}

/// The account that is chosen is the one that becomes active: its key, its
/// credentials, and its email, or else its key, in what is said.
pub proof fn law_chosen_becomes_active(result: RefreshView)
    ensures
        commands::selection(result).account_key == result.account_key,
        commands::selection(result).auth_path == result.auth_path,
        result.email matches Some(email) ==> commands::selection(result).line == "\nselected: "@
            + email,
        result.email is None ==> commands::selection(result).line == "\nselected: "@
            + result.account_key,
{
}

/// A refresh speaks of the account that was to be refreshed.
pub proof fn law_refresh_is_about_its_account(
    row: AccountView,
    outcome: RefreshOutcome,
    result: RefreshView,
)
    requires
        refresh::comes_to(row, outcome, result),
    ensures
        result.account_key == row.account_key,
        result.auth_path == row.auth_path,
        result.skipped <==> outcome is LockBusy,
        !result.ok <==> outcome is Failed,
{
}

/// A probe that saw limits replaces all that was known of the quota; one that
/// did not leaves it as it is stored.
pub proof fn law_probe_decides_the_quota(
    row: AccountView,
    outcome: RefreshOutcome,
    result: RefreshView,
)
    requires
        refresh::comes_to(row, outcome, result),
    ensures
        outcome matches RefreshOutcome::Probed(snapshot) && snapshot@.rate_limits_available ==> {
            &&& result.primary_used_percent == outcome->Probed_0@.primary_used_percent
            &&& result.secondary_used_percent == outcome->Probed_0@.secondary_used_percent
            &&& result.primary_resets_at == outcome->Probed_0@.primary_resets_at
            &&& result.credits_has_credits == outcome->Probed_0@.credits_has_credits
            &&& result.credits_unlimited == outcome->Probed_0@.credits_unlimited
        },
        !(outcome is Probed) || !outcome->Probed_0@.rate_limits_available ==> {
            &&& result.primary_used_percent == row.primary_used_percent
            &&& result.secondary_used_percent == row.secondary_used_percent
            &&& result.primary_resets_at == row.primary_resets_at
            &&& result.credits_has_credits == row.credits_has_credits
            &&& result.credits_unlimited == row.credits_unlimited
        },
{
}

/// What a probe that went well saw of the account is what the refresh tells: its
/// plan, its email where the credentials name one, when it was last refreshed,
/// and what it warns of.
pub proof fn law_probe_decides_the_rest(
    row: AccountView,
    outcome: RefreshOutcome,
    result: RefreshView,
)
    requires
        refresh::comes_to(row, outcome, result),
        outcome is Probed,
    ensures
        result.plan == outcome->Probed_0@.plan,
        result.observed_last_refresh == outcome->Probed_0@.account_meta.last_refresh,
        result.rate_limits_available == outcome->Probed_0@.rate_limits_available,
        result.warnings == outcome->Probed_0@.warnings,
        result.failure_kind is None,
        outcome->Probed_0@.account_meta.email is Some ==> result.email
            == outcome->Probed_0@.account_meta.email,
        outcome->Probed_0@.account_meta.email is None ==> result.email == row.email,
{
}

/// What is stored of an account is what a refresh tells where no probe went
/// well, with the reason.
pub proof fn law_without_a_probe_nothing_is_new(
    row: AccountView,
    outcome: RefreshOutcome,
    result: RefreshView,
)
    requires
        refresh::comes_to(row, outcome, result),
        !(outcome is Probed),
    ensures
        result.plan == row.plan,
        result.email == row.email,
        result.observed_last_refresh == row.last_refresh,
        result.rate_limits_available <==> row.snapshot_updated_at is Some,
        outcome is LockBusy ==> result.failure_kind == Some("lock_busy"@) && result.warnings
            == seq!["account lock busy"@],
        outcome matches RefreshOutcome::Failed(failure) ==> result.warnings == seq![
            failure@.message,
        ] && result.failure_kind == Some(failure@.kind.word()),
{
}

/// What the history keeps of a refresh that went well names each thing that the
/// refresh tells.
pub proof fn law_detail_tells_all(quota: Quota, snapshot: SnapshotView)
    ensures
        ({
            let detail = refresh::success_detail(quota, snapshot);
            let integer = |value: Option<i64>|
                match value {
                    Some(value) => Some(json::JsonView::Integer(value)),
                    None => Some(json::JsonView::Null),
                };
            let truth = |value: Option<bool>|
                match value {
                    Some(value) => Some(json::JsonView::Bool(value)),
                    None => Some(json::JsonView::Null),
                };
            let words = |value: Option<Seq<char>>|
                match value {
                    Some(value) => Some(json::JsonView::Text(value)),
                    None => Some(json::JsonView::Null),
                };
            &&& detail.member("primary_used_percent"@) == integer(quota.primary_used_percent)
            &&& detail.member("secondary_used_percent"@) == integer(quota.secondary_used_percent)
            &&& detail.member("primary_resets_at"@) == integer(quota.primary_resets_at)
            &&& detail.member("credits_has_credits"@) == truth(quota.credits_has_credits)
            &&& detail.member("credits_unlimited"@) == truth(quota.credits_unlimited)
            &&& detail.member("plan"@) == words(snapshot.plan)
            &&& detail.member("observed_last_refresh"@) == words(
                snapshot.account_meta.last_refresh,
            )
            &&& detail.member("rate_limits_available"@) == Some(
                json::JsonView::Bool(snapshot.rate_limits_available),
            )
            &&& detail.member("warnings"@) matches Some(json::JsonView::Array(items))
            &&& items.len() == snapshot.warnings.len()
            &&& forall|i: int|
                0 <= i < items.len() ==> #[trigger] items[i] == json::JsonView::Text(
                    snapshot.warnings[i],
                )
        }),
{
    let detail = refresh::success_detail(quota, snapshot);
    let members = detail->Object_0;
    refresh::lemma_detail_order();
    assert(json::ascending(members));
    json::law_member_by_name(members, 0);
    json::law_member_by_name(members, 1);
    json::law_member_by_name(members, 2);
    json::law_member_by_name(members, 3);
    json::law_member_by_name(members, 4);
    json::law_member_by_name(members, 5);
    json::law_member_by_name(members, 6);
    json::law_member_by_name(members, 7);
    json::law_member_by_name(members, 8);
}

/// What the history keeps of a refresh that failed names the error and its kind.
pub proof fn law_failure_detail_tells_why(failure: FailureView)
    ensures
        refresh::failure_detail(failure).member("error"@) == Some(
            json::JsonView::Text(failure.message),
        ),
        refresh::failure_detail(failure).member("error_kind"@) == Some(
            json::JsonView::Text(failure.kind.word()),
        ),
{
    let members = refresh::failure_detail(failure)->Object_0;
    refresh::lemma_detail_order();
    json::law_member_by_name(members, 0);
    json::law_member_by_name(members, 1);
}

/// The detail that the history keeps is the text of what the refresh came to.
pub proof fn law_detail_is_that_of_the_outcome(
    row: AccountView,
    outcome: RefreshOutcome,
    result: RefreshView,
)
    requires
        refresh::comes_to(row, outcome, result),
    ensures
        outcome matches RefreshOutcome::Probed(snapshot) ==> result.history_detail_json
            == json::json_text(refresh::success_detail(told_quota(result), snapshot@)),
        outcome matches RefreshOutcome::Failed(failure) ==> result.history_detail_json
            == json::json_text(refresh::failure_detail(failure@)),
        outcome is LockBusy ==> result.history_detail_json == json::json_text(
            json::JsonView::Object(
                seq![("warning"@, json::JsonView::Text("account lock busy"@))],
            ),
        ),
{
}

/// Every account that was refreshed well can be chosen, and no other.
pub proof fn law_who_can_be_chosen(result: RefreshView)
    ensures
        refresh::usable(result) <==> result.ok && !result.skipped,
{
}

/// The name of an account in the line of a refresh: the email that is now known,
/// or else its key.
pub open spec fn name_in(result: RefreshView) -> Seq<char> {
    match result.email {
        Some(email) => email,
        None => result.account_key,
    }
}

/// What the line of a refresh warns of: the first of its warnings.
pub open spec fn warning_in(result: RefreshView) -> Option<Seq<char>> {
    if result.warnings.len() > 0 {
        Some(result.warnings[0])
    } else {
        None
    }
}

/// The line of a refresh that was skipped, and of one that failed, is about the
/// account and gives the reason.
pub proof fn law_line_gives_the_reason(
    row: AccountView,
    outcome: RefreshOutcome,
    result: RefreshView,
)
    requires
        refresh::comes_to(row, outcome, result),
    ensures
        outcome is LockBusy ==> result.line == "[refresh] "@ + name_in(result)
            + "  status=skipped  reason=account lock busy"@,
        outcome matches RefreshOutcome::Failed(failure) ==> result.line == "[refresh] "@ + name_in(
            result,
        ) + "  status=error  reason="@ + failure@.message,
{
}

/// The line of a refresh that went well is about the account and tells what the
/// refresh tells, with the end of the short window as it is shown.
pub proof fn law_line_tells_the_outcome(
    row: AccountView,
    outcome: RefreshOutcome,
    result: RefreshView,
)
    requires
        refresh::comes_to(row, outcome, result),
        outcome is Probed,
    ensures
        exists|reset: Seq<char>|
            report::is_shown(result.primary_resets_at, reset) && result.line
                == #[trigger] report::live_text(
                name_in(result),
                result.plan,
                result.primary_used_percent,
                result.secondary_used_percent,
                reset,
                result.credits_has_credits,
                true,
                warning_in(result),
            ),
{
    let snapshot = outcome->Probed_0;
    let resets_at = refresh::known_quota(row, snapshot@).primary_resets_at;
    let reset = choose|reset: Seq<char>|
        report::shows(resets_at, reset) && report::is_shown(resets_at, reset) && result
            == #[trigger] refresh::good_refresh(row, snapshot@, reset);
    assert(result == refresh::good_refresh(row, snapshot@, reset));
    assert(report::is_shown(result.primary_resets_at, reset));
    assert(result.line == report::live_text(
        name_in(result),
        result.plan,
        result.primary_used_percent,
        result.secondary_used_percent,
        reset,
        result.credits_has_credits,
        true,
        warning_in(result),
    ));
}

/// A quota can be shown where what is used of both windows, and when the short
/// one ends, can be.
pub proof fn law_quota_can_be_shown(quota: Quota)
    ensures
        refresh::quota_showable(quota) <==> report::countable(quota.primary_used_percent)
            && report::countable(quota.secondary_used_percent) && report::showable(
            quota.primary_resets_at,
        ),
{
}

} // verus!
