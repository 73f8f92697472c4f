//! What a refresh of an account comes to, and which account is the best.

use vstd::prelude::*;
use vstd::string::*;

use crate::db;
use crate::db::{display_name, AccountRow, AccountView};
use crate::json;
use crate::json::{boolean_json, integer_json, pair, single, text_json, texts_json, Json, JsonView};
use crate::probe::{FailureView, ProbeFailure, ProbeSnapshot, SnapshotView};
use crate::report;
use crate::report::{format_epoch, is_countable, is_showable, live_line};
use crate::text;
use crate::text::{borrowed, copied};

verus! {

/// How much an account recommends itself: the smaller, the better. In order of
/// weight: nothing is known of its quota; its short window is used up; what is
/// used of the short window and of the long one; its credits are limited; it
/// has no credits; when the short window ends.
pub type Score = (bool, bool, i64, i64, bool, bool, i64);

/// How much an account recommends itself.
pub open spec fn score_of(
    primary_used_percent: Option<i64>,
    secondary_used_percent: Option<i64>,
    primary_resets_at: Option<i64>,
    credits_has_credits: Option<bool>,
    credits_unlimited: Option<bool>,
) -> Score {
    let primary_used = text::or_else(primary_used_percent, 100);
    (
        primary_used_percent is None && secondary_used_percent is None,
        primary_used >= 100,
        primary_used,
        text::or_else(secondary_used_percent, 100),
        credits_unlimited != Some(true),
        credits_has_credits != Some(true),
        text::or_else(primary_resets_at, i64::MAX),
    )
}

/// How much an account recommends itself.
pub fn score(
    primary_used_percent: Option<i64>,
    secondary_used_percent: Option<i64>,
    primary_resets_at: Option<i64>,
    credits_has_credits: Option<bool>,
    credits_unlimited: Option<bool>,
) -> (score: Score)
    ensures
        score == score_of(
            primary_used_percent,
            secondary_used_percent,
            primary_resets_at,
            credits_has_credits,
            credits_unlimited,
        ),
{
    let unknown = primary_used_percent.is_none() && secondary_used_percent.is_none();
    let primary_used: i64 = match primary_used_percent {
        Some(used) => used,
        None => 100,
    };
    let secondary_used: i64 = match secondary_used_percent {
        Some(used) => used,
        None => 100,
    };
    let limited = match credits_unlimited {
        Some(unlimited) => !unlimited,
        None => true,
    };
    let without_credits = match credits_has_credits {
        Some(has_credits) => !has_credits,
        None => true,
    };
    let resets_at: i64 = match primary_resets_at {
        Some(moment) => moment,
        None => i64::MAX,
    };
    (
        unknown,
        primary_used >= 100,
        primary_used,
        secondary_used,
        limited,
        without_credits,
        resets_at,
    )
}

/// Whether one score is smaller than another: at the first place where they
/// differ. False is smaller than true.
pub open spec fn better(a: Score, b: Score) -> bool {
    if a.0 != b.0 {
        b.0
    } else if a.1 != b.1 {
        b.1
    } else if a.2 != b.2 {
        a.2 < b.2
    } else if a.3 != b.3 {
        a.3 < b.3
    } else if a.4 != b.4 {
        b.4
    } else if a.5 != b.5 {
        b.5
    } else {
        a.6 < b.6
    }
}

/// Whether one score is smaller than another.
fn is_better(a: &Score, b: &Score) -> (yes: bool)
    ensures
        yes == better(*a, *b),
{
    if a.0 != b.0 {
        b.0
    } else if a.1 != b.1 {
        b.1
    } else if a.2 != b.2 {
        a.2 < b.2
    } else if a.3 != b.3 {
        a.3 < b.3
    } else if a.4 != b.4 {
        b.4
    } else if a.5 != b.5 {
        b.5
    } else {
        a.6 < b.6
    }
}

/// What a refresh of an account came to.
#[derive(Debug)]
pub struct RefreshResult {
    pub account_key: String,
    pub auth_path: String,
    pub email: Option<String>,
    pub ok: bool,
    pub line: String,
    pub plan: Option<String>,
    pub primary_used_percent: Option<i64>,
    pub secondary_used_percent: Option<i64>,
    pub primary_resets_at: Option<i64>,
    pub credits_has_credits: Option<bool>,
    pub credits_unlimited: Option<bool>,
    pub observed_last_refresh: Option<String>,
    pub rate_limits_available: bool,
    pub warnings: Vec<String>,
    pub failure_kind: Option<String>,
    pub skipped: bool,
    pub history_detail_json: String,
    pub score: Score,
}

/// What a `RefreshResult` says.
#[verifier::ext_equal]
pub struct RefreshView {
    pub account_key: Seq<char>,
    pub auth_path: Seq<char>,
    pub email: Option<Seq<char>>,
    pub ok: bool,
    pub line: Seq<char>,
    pub plan: Option<Seq<char>>,
    pub primary_used_percent: Option<i64>,
    pub secondary_used_percent: Option<i64>,
    pub primary_resets_at: Option<i64>,
    pub credits_has_credits: Option<bool>,
    pub credits_unlimited: Option<bool>,
    pub observed_last_refresh: Option<Seq<char>>,
    pub rate_limits_available: bool,
    pub warnings: Seq<Seq<char>>,
    pub failure_kind: Option<Seq<char>>,
    pub skipped: bool,
    pub history_detail_json: Seq<char>,
    pub score: Score,
}

impl View for RefreshResult {
    type V = RefreshView;

    open spec fn view(&self) -> RefreshView {
        RefreshView {
            account_key: self.account_key@,
            auth_path: self.auth_path@,
            email: self.email.deep_view(),
            ok: self.ok,
            line: self.line@,
            plan: self.plan.deep_view(),
            primary_used_percent: self.primary_used_percent,
            secondary_used_percent: self.secondary_used_percent,
            primary_resets_at: self.primary_resets_at,
            credits_has_credits: self.credits_has_credits,
            credits_unlimited: self.credits_unlimited,
            observed_last_refresh: self.observed_last_refresh.deep_view(),
            rate_limits_available: self.rate_limits_available,
            warnings: self.warnings.deep_view(),
            failure_kind: self.failure_kind.deep_view(),
            skipped: self.skipped,
            history_detail_json: self.history_detail_json@,
            score: self.score,
        }
    }
}

/// What is known of the quota of an account.
#[derive(Debug, Clone, Copy)]
pub struct Quota {
    pub primary_used_percent: Option<i64>,
    pub secondary_used_percent: Option<i64>,
    pub primary_resets_at: Option<i64>,
    pub credits_has_credits: Option<bool>,
    pub credits_unlimited: Option<bool>,
}

/// The quota of an account as it is stored.
pub open spec fn stored_quota(row: AccountView) -> Quota {
    Quota {
        primary_used_percent: row.primary_used_percent,
        secondary_used_percent: row.secondary_used_percent,
        primary_resets_at: row.primary_resets_at,
        credits_has_credits: row.credits_has_credits,
        credits_unlimited: row.credits_unlimited,
    }
}

/// The quota of an account after a probe: what the probe saw, or what is stored
/// where the limits did not come back.
pub open spec fn known_quota(row: AccountView, snapshot: SnapshotView) -> Quota {
    if snapshot.rate_limits_available {
        Quota {
            primary_used_percent: snapshot.primary_used_percent,
            secondary_used_percent: snapshot.secondary_used_percent,
            primary_resets_at: snapshot.primary_resets_at,
            credits_has_credits: snapshot.credits_has_credits,
            credits_unlimited: snapshot.credits_unlimited,
        }
    } else {
        stored_quota(row)
    }
}

/// How much an account with some quota recommends itself.
pub open spec fn quota_score(quota: Quota) -> Score {
    score_of(
        quota.primary_used_percent,
        quota.secondary_used_percent,
        quota.primary_resets_at,
        quota.credits_has_credits,
        quota.credits_unlimited,
    )
}

fn quota_of_row(row: &AccountRow) -> (quota: Quota)
    ensures
        quota == stored_quota(row@),
{
    Quota {
        primary_used_percent: row.primary_used_percent,
        secondary_used_percent: row.secondary_used_percent,
        primary_resets_at: row.primary_resets_at,
        credits_has_credits: row.credits_has_credits,
        credits_unlimited: row.credits_unlimited,
    }
}

/// The quota of an account after a probe.
pub fn merge_quota(row: &AccountRow, snapshot: &ProbeSnapshot) -> (quota: Quota)
    ensures
        quota == known_quota(row@, snapshot@),
{
    if snapshot.rate_limits_available {
        Quota {
            primary_used_percent: snapshot.primary_used_percent,
            secondary_used_percent: snapshot.secondary_used_percent,
            primary_resets_at: snapshot.primary_resets_at,
            credits_has_credits: snapshot.credits_has_credits,
            credits_unlimited: snapshot.credits_unlimited,
        }
    } else {
        quota_of_row(row)
    }
}

fn score_of_quota(quota: &Quota) -> (points: Score)
    ensures
        points == quota_score(*quota),
{
    score(
        quota.primary_used_percent,
        quota.secondary_used_percent,
        quota.primary_resets_at,
        quota.credits_has_credits,
        quota.credits_unlimited,
    )
}

/// The order of scores is strict and total: no score is better than itself, of
/// two different ones exactly one is better, and what is better than a better
/// one is better.
pub proof fn law_better_is_an_order(a: Score, b: Score, c: Score)
    ensures
        !better(a, a),
        a != b ==> (better(a, b) <==> !better(b, a)),
        better(a, b) && better(b, c) ==> better(a, c),
{
}

/// An account of whose quota something is known is better than one of whose
/// quota nothing is known. Of two that are known, one that has something left
/// of its short window is better than one that has not.
pub proof fn law_known_and_free_first(a: Quota, b: Quota)
    ensures
        (a.primary_used_percent is Some || a.secondary_used_percent is Some)
            && b.primary_used_percent is None && b.secondary_used_percent is None ==> better(
            quota_score(a),
            quota_score(b),
        ),
        a.primary_used_percent is Some && a.primary_used_percent->0 < 100 && (
        b.primary_used_percent is Some || b.secondary_used_percent is Some) && text::or_else(
            b.primary_used_percent,
            100,
        ) >= 100 ==> better(quota_score(a), quota_score(b)),
{
}

/// What the history keeps of a refresh that was skipped.
pub open spec fn busy_detail() -> JsonView {
    JsonView::Object(seq![("warning"@, JsonView::Text("account lock busy"@))])
}

/// What the history keeps of a refresh that failed.
pub open spec fn failure_detail(failure: FailureView) -> JsonView {
    JsonView::Object(
        seq![
            ("error"@, JsonView::Text(failure.message)),
            ("error_kind"@, JsonView::Text(failure.kind.word())),
        ],
    )
}

/// What the history keeps of a refresh that went well.
pub open spec fn success_detail(quota: Quota, snapshot: SnapshotView) -> JsonView {
    JsonView::Object(
        seq![
            ("credits_has_credits"@, json::boolean_or_null(quota.credits_has_credits)),
            ("credits_unlimited"@, json::boolean_or_null(quota.credits_unlimited)),
            ("observed_last_refresh"@, json::text_or_null(snapshot.account_meta.last_refresh)),
            ("plan"@, json::text_or_null(snapshot.plan)),
            ("primary_resets_at"@, json::integer_or_null(quota.primary_resets_at)),
            ("primary_used_percent"@, json::integer_or_null(quota.primary_used_percent)),
            ("rate_limits_available"@, JsonView::Bool(snapshot.rate_limits_available)),
            ("secondary_used_percent"@, json::integer_or_null(quota.secondary_used_percent)),
            ("warnings"@, json::text_array(snapshot.warnings)),
        ],
    )
}

/// The members of a detail stand in the order of their names.
pub proof fn lemma_detail_order()
    ensures
        text::before("error"@, "error_kind"@),
        text::before("credits_has_credits"@, "credits_unlimited"@),
        text::before("credits_unlimited"@, "observed_last_refresh"@),
        text::before("observed_last_refresh"@, "plan"@),
        text::before("plan"@, "primary_resets_at"@),
        text::before("primary_resets_at"@, "primary_used_percent"@),
        text::before("primary_used_percent"@, "rate_limits_available"@),
        text::before("rate_limits_available"@, "secondary_used_percent"@),
        text::before("secondary_used_percent"@, "warnings"@),
{
    assert(text::before_at("error"@, "error_kind"@, 5)) by {
        reveal_strlit("error");
        reveal_strlit("error_kind");
    }
    assert(text::before_at("credits_has_credits"@, "credits_unlimited"@, 8)) by {
        reveal_strlit("credits_has_credits");
        reveal_strlit("credits_unlimited");
    }
    assert(text::before_at("credits_unlimited"@, "observed_last_refresh"@, 0)) by {
        reveal_strlit("credits_unlimited");
        reveal_strlit("observed_last_refresh");
    }
    assert(text::before_at("observed_last_refresh"@, "plan"@, 0)) by {
        reveal_strlit("observed_last_refresh");
        reveal_strlit("plan");
    }
    assert(text::before_at("plan"@, "primary_resets_at"@, 1)) by {
        reveal_strlit("plan");
        reveal_strlit("primary_resets_at");
    }
    assert(text::before_at("primary_resets_at"@, "primary_used_percent"@, 8)) by {
        reveal_strlit("primary_resets_at");
        reveal_strlit("primary_used_percent");
    }
    assert(text::before_at("primary_used_percent"@, "rate_limits_available"@, 0)) by {
        reveal_strlit("primary_used_percent");
        reveal_strlit("rate_limits_available");
    }
    assert(text::before_at("rate_limits_available"@, "secondary_used_percent"@, 0)) by {
        reveal_strlit("rate_limits_available");
        reveal_strlit("secondary_used_percent");
    }
    assert(text::before_at("secondary_used_percent"@, "warnings"@, 0)) by {
        reveal_strlit("secondary_used_percent");
        reveal_strlit("warnings");
    }
}

/// What the history keeps of a refresh that went well.
fn success_json(quota: &Quota, snapshot: &ProbeSnapshot) -> (detail: Json)
    ensures
        detail@ == success_detail(*quota, snapshot@),
        detail@.ordered(),
{
    let last_refresh = match &snapshot.account_meta.last_refresh {
        Some(last_refresh) => Some(last_refresh.as_str()),
        None => None,
    };
    let plan = match &snapshot.plan {
        Some(plan) => Some(plan.as_str()),
        None => None,
    };
    let mut members: Vec<(String, Json)> = Vec::new();
    members.push(("credits_has_credits".to_owned(), boolean_json(quota.credits_has_credits)));
    members.push(("credits_unlimited".to_owned(), boolean_json(quota.credits_unlimited)));
    members.push(("observed_last_refresh".to_owned(), text_json(last_refresh)));
    members.push(("plan".to_owned(), text_json(plan)));
    members.push(("primary_resets_at".to_owned(), integer_json(quota.primary_resets_at)));
    members.push(("primary_used_percent".to_owned(), integer_json(quota.primary_used_percent)));
    members.push(("rate_limits_available".to_owned(), Json::Bool(snapshot.rate_limits_available)));
    members.push(("secondary_used_percent".to_owned(), integer_json(quota.secondary_used_percent)));
    members.push(("warnings".to_owned(), texts_json(&snapshot.warnings)));
    proof {
        lemma_detail_order();
        json::lemma_object_view(members);
        let tree = success_detail(*quota, snapshot@);
        assert(json::members_view(members@) =~= tree->Object_0);
        assert(tree.ordered()) by {
            reveal_with_fuel(JsonView::ordered, 3);
        }
    }
    Json::Object(members)
}

/// The first thing that a probe warns of.
pub open spec fn first_warning(snapshot: SnapshotView) -> Option<Seq<char>> {
    if snapshot.warnings.len() > 0 {
        Some(snapshot.warnings[0])
    } else {
        None
    }
}

/// What a refresh comes to where another one of the same account is under way:
/// the account stays as it is stored.
pub open spec fn skipped_refresh(row: AccountView) -> RefreshView {
    RefreshView {
        account_key: row.account_key,
        auth_path: row.auth_path,
        email: row.email,
        ok: true,
        line: "[refresh] "@ + db::listed_name(row) + "  status=skipped  reason=account lock busy"@,
        plan: row.plan,
        primary_used_percent: row.primary_used_percent,
        secondary_used_percent: row.secondary_used_percent,
        primary_resets_at: row.primary_resets_at,
        credits_has_credits: row.credits_has_credits,
        credits_unlimited: row.credits_unlimited,
        observed_last_refresh: row.last_refresh,
        rate_limits_available: row.snapshot_updated_at is Some,
        warnings: seq!["account lock busy"@],
        failure_kind: Some("lock_busy"@),
        skipped: true,
        history_detail_json: json::json_text(busy_detail()),
        score: quota_score(stored_quota(row)),
    }
}

/// What a refresh comes to where the probe failed: the quota stays as it is
/// stored.
pub open spec fn failed_refresh(row: AccountView, failure: FailureView) -> RefreshView {
    RefreshView {
        account_key: row.account_key,
        auth_path: row.auth_path,
        email: row.email,
        ok: false,
        line: report::live_text(
            db::listed_name(row),
            row.plan,
            row.primary_used_percent,
            row.secondary_used_percent,
            Seq::empty(),
            row.credits_has_credits,
            false,
            Some(failure.message),
        ),
        plan: row.plan,
        primary_used_percent: row.primary_used_percent,
        secondary_used_percent: row.secondary_used_percent,
        primary_resets_at: row.primary_resets_at,
        credits_has_credits: row.credits_has_credits,
        credits_unlimited: row.credits_unlimited,
        observed_last_refresh: row.last_refresh,
        rate_limits_available: row.snapshot_updated_at is Some,
        warnings: seq![failure.message],
        failure_kind: Some(failure.kind.word()),
        skipped: false,
        history_detail_json: json::json_text(failure_detail(failure)),
        score: quota_score(stored_quota(row)),
    }
}

/// What a refresh comes to where the probe went well, given how the end of the
/// short window is shown.
pub open spec fn good_refresh(
    row: AccountView,
    snapshot: SnapshotView,
    reset: Seq<char>,
) -> RefreshView {
    let quota = known_quota(row, snapshot);
    let email = text::first_of(snapshot.account_meta.email, row.email);
    RefreshView {
        account_key: row.account_key,
        auth_path: row.auth_path,
        email,
        ok: true,
        line: report::live_text(
            text::or_else(email, row.account_key),
            snapshot.plan,
            quota.primary_used_percent,
            quota.secondary_used_percent,
            reset,
            quota.credits_has_credits,
            true,
            first_warning(snapshot),
        ),
        plan: snapshot.plan,
        primary_used_percent: quota.primary_used_percent,
        secondary_used_percent: quota.secondary_used_percent,
        primary_resets_at: quota.primary_resets_at,
        credits_has_credits: quota.credits_has_credits,
        credits_unlimited: quota.credits_unlimited,
        observed_last_refresh: snapshot.account_meta.last_refresh,
        rate_limits_available: snapshot.rate_limits_available,
        warnings: snapshot.warnings,
        failure_kind: None,
        skipped: false,
        history_detail_json: json::json_text(success_detail(quota, snapshot)),
        score: quota_score(quota),
    }
}

/// A text in a row of its own.
fn one(text: &str) -> (texts: Vec<String>)
    ensures
        texts.deep_view() == seq![text@],
{
    let mut texts: Vec<String> = Vec::new();
    texts.push(text.to_owned());
    assert(texts.deep_view() =~= seq![text@]);
    texts
}

/// What a refresh comes to where another one of the same account is under way.
pub fn refresh_skipped(row: &AccountRow) -> (result: RefreshResult)
    ensures
        result@ == skipped_refresh(row@),
{
    let mut line = "[refresh] ".to_owned();
    line.append(display_name(row));
    line.append("  status=skipped  reason=account lock busy");
    let warnings = one("account lock busy");
    let detail = single("warning", Json::Text("account lock busy".to_owned()));
    RefreshResult {
        account_key: row.account_key.clone(),
        auth_path: row.auth_path.clone(),
        email: row.email.clone(),
        ok: true,
        line,
        plan: row.plan.clone(),
        primary_used_percent: row.primary_used_percent,
        secondary_used_percent: row.secondary_used_percent,
        primary_resets_at: row.primary_resets_at,
        credits_has_credits: row.credits_has_credits,
        credits_unlimited: row.credits_unlimited,
        observed_last_refresh: row.last_refresh.clone(),
        rate_limits_available: row.snapshot_updated_at.is_some(),
        warnings,
        failure_kind: Some("lock_busy".to_owned()),
        skipped: true,
        history_detail_json: detail.to_text(),
        score: score_of_quota(&quota_of_row(row)),
    }
}

/// What a refresh comes to where the probe failed.
pub fn refresh_failed(row: &AccountRow, failure: &ProbeFailure) -> (result: RefreshResult)
    ensures
        result@ == failed_refresh(row@, failure@),
{
    let line = live_line(
        display_name(row),
        borrowed(&row.plan),
        row.primary_used_percent,
        row.secondary_used_percent,
        "",
        row.credits_has_credits,
        false,
        Some(failure.message.as_str()),
    );
    let warnings = one(failure.message.as_str());
    proof {
        lemma_detail_order();
    }
    let detail = pair(
        "error",
        Json::Text(failure.message.clone()),
        "error_kind",
        Json::Text(failure.kind.as_str().to_owned()),
    );
    RefreshResult {
        account_key: row.account_key.clone(),
        auth_path: row.auth_path.clone(),
        email: row.email.clone(),
        ok: false,
        line,
        plan: row.plan.clone(),
        primary_used_percent: row.primary_used_percent,
        secondary_used_percent: row.secondary_used_percent,
        primary_resets_at: row.primary_resets_at,
        credits_has_credits: row.credits_has_credits,
        credits_unlimited: row.credits_unlimited,
        observed_last_refresh: row.last_refresh.clone(),
        rate_limits_available: row.snapshot_updated_at.is_some(),
        warnings,
        failure_kind: Some(failure.kind.as_str().to_owned()),
        skipped: false,
        history_detail_json: detail.to_text(),
        score: score_of_quota(&quota_of_row(row)),
    }
}

/// Whether the quota of an account can be shown.
pub open spec fn quota_showable(quota: Quota) -> bool {
    &&& report::countable(quota.primary_used_percent)
    &&& report::countable(quota.secondary_used_percent)
    &&& report::showable(quota.primary_resets_at)
}

/// Whether the quota of an account can be shown.
pub fn is_quota_showable(quota: &Quota) -> (yes: bool)
    ensures
        yes == quota_showable(*quota),
{
    is_countable(quota.primary_used_percent) && is_countable(quota.secondary_used_percent)
        && is_showable(quota.primary_resets_at)
}

/// What a refresh comes to where the probe went well, given how the end of the
/// short window is shown.
pub fn refresh_succeeded(row: &AccountRow, snapshot: &ProbeSnapshot, reset: &str) -> (result:
    RefreshResult)
    requires
        report::countable(known_quota(row@, snapshot@).primary_used_percent),
        report::countable(known_quota(row@, snapshot@).secondary_used_percent),
    ensures
        result@ == good_refresh(row@, snapshot@, reset@),
{
    let quota = merge_quota(row, snapshot);
    let email = match &snapshot.account_meta.email {
        Some(email) => Some(email.clone()),
        None => row.email.clone(),
    };
    let name: &str = match &email {
        Some(email) => email.as_str(),
        None => row.account_key.as_str(),
    };
    let warning: Option<&str> = if snapshot.warnings.len() > 0 {
        Some(snapshot.warnings[0].as_str())
    } else {
        None
    };
    let line = live_line(
        name,
        borrowed(&snapshot.plan),
        quota.primary_used_percent,
        quota.secondary_used_percent,
        reset,
        quota.credits_has_credits,
        true,
        warning,
    );
    let detail = success_json(&quota, snapshot);
    RefreshResult {
        account_key: row.account_key.clone(),
        auth_path: row.auth_path.clone(),
        email,
        ok: true,
        line,
        plan: snapshot.plan.clone(),
        primary_used_percent: quota.primary_used_percent,
        secondary_used_percent: quota.secondary_used_percent,
        primary_resets_at: quota.primary_resets_at,
        credits_has_credits: quota.credits_has_credits,
        credits_unlimited: quota.credits_unlimited,
        observed_last_refresh: snapshot.account_meta.last_refresh.clone(),
        rate_limits_available: snapshot.rate_limits_available,
        warnings: copied(&snapshot.warnings),
        failure_kind: None,
        skipped: false,
        history_detail_json: detail.to_text(),
        score: score_of_quota(&quota),
    }
}

/// What happened when an account was to be refreshed.
pub enum RefreshOutcome<'a> {
    /// Another refresh of the account is under way.
    LockBusy,
    /// The account was probed.
    Probed(&'a ProbeSnapshot),
    /// The probe failed.
    Failed(&'a ProbeFailure),
}

/// Whether the result of a refresh is that of an outcome, whatever the time
/// zone in which the end of the short window is shown.
pub open spec fn comes_to(row: AccountView, outcome: RefreshOutcome, result: RefreshView) -> bool {
    match outcome {
        RefreshOutcome::LockBusy => result == skipped_refresh(row),
        RefreshOutcome::Failed(failure) => result == failed_refresh(row, failure@),
        RefreshOutcome::Probed(snapshot) => exists|reset: Seq<char>|
            report::shows(known_quota(row, snapshot@).primary_resets_at, reset)
                && report::is_shown(known_quota(row, snapshot@).primary_resets_at, reset) && result
                == #[trigger] good_refresh(row, snapshot@, reset),
    }
}

/// What a refresh of an account comes to.
pub fn refresh_one(row: &AccountRow, outcome: RefreshOutcome) -> (result: RefreshResult)
    requires
        outcome matches RefreshOutcome::Probed(snapshot) ==> quota_showable(
            known_quota(row@, snapshot@),
        ),
    ensures
        comes_to(row@, outcome, result@),
{
    match outcome {
        RefreshOutcome::LockBusy => refresh_skipped(row),
        RefreshOutcome::Failed(failure) => refresh_failed(row, failure),
        RefreshOutcome::Probed(snapshot) => {
            let quota = merge_quota(row, snapshot);
            let reset = format_epoch(quota.primary_resets_at);
            refresh_succeeded(row, snapshot, reset.as_str())
        },
    }
}

/// Whether a result makes its account a candidate for the active one.
pub open spec fn usable(result: RefreshView) -> bool {
    result.ok && !result.skipped
}

/// What results say.
pub open spec fn results_view(results: Seq<RefreshResult>) -> Seq<RefreshView> {
    results.map_values(|result: RefreshResult| result@)
}

/// Whether a result is the first of the best usable ones.
pub open spec fn is_best(results: Seq<RefreshView>, best: int) -> bool {
    &&& 0 <= best < results.len()
    &&& usable(results[best])
    &&& forall|i: int|
        0 <= i < results.len() && usable(#[trigger] results[i]) ==> !better(
            results[i].score,
            results[best].score,
        )
    &&& forall|i: int|
        0 <= i < best && usable(#[trigger] results[i]) ==> better(
            results[best].score,
            results[i].score,
        )
}

/// The account that becomes the active one: the first of the best usable ones.
pub fn choose_best(results: &Vec<RefreshResult>) -> (best: Option<usize>)
    ensures
        best matches Some(i) ==> is_best(results_view(results@), i as int),
        best is None ==> forall|i: int|
            0 <= i < results@.len() ==> !usable(#[trigger] results_view(results@)[i]),
{
    let ghost all = results_view(results@);
    let mut best: Option<usize> = None;
    for k in 0..results.len()
        invariant
            all == results_view(results@),
            best matches Some(i) ==> i < k && is_best(all.take(k as int), i as int),
            best is None ==> forall|i: int| 0 <= i < k ==> !usable(#[trigger] all[i]),
    {
        assert(all[k as int] == results@[k as int]@);
        let ghost seen = all.take(k as int);
        let ghost next = all.take(k + 1);
        assert(forall|i: int| 0 <= i < k ==> #[trigger] next[i] == seen[i]);
        assert(forall|i: int| 0 <= i < k ==> #[trigger] seen[i] == all[i]);
        assert(next[k as int] == all[k as int]);
        if results[k].ok && !results[k].skipped {
            match best {
                None => {
                    best = Some(k);
                    assert(is_best(next, k as int));
                },
                Some(i) => {
                    assert(all[i as int] == results@[i as int]@);
                    if is_better(&results[k].score, &results[i].score) {
                        best = Some(k);
                        assert(is_best(next, k as int));
                    } else {
                        assert(is_best(next, i as int));
                    }
                },
            }
        } else {
            proof {
                if let Some(i) = best {
                    assert(is_best(next, i as int));
                }
            }
        }
    }
    assert(all.take(all.len() as int) =~= all);
    best
}

/// The bounds of the batches in which accounts are refreshed side by side.
pub open spec fn is_batching(bounds: Seq<(usize, usize)>, total: nat, jobs: nat) -> bool {
    let size: nat = if jobs == 0 {
        1
    } else {
        jobs
    };
    &&& bounds.len() == 0 <==> total == 0
    &&& bounds.len() > 0 ==> bounds[0].0 == 0 && bounds.last().1 == total
    &&& forall|i: int|
        0 <= i < bounds.len() - 1 ==> (#[trigger] bounds[i]).1 - bounds[i].0 == size
            && bounds[i].1 == bounds[i + 1].0
    &&& bounds.len() > 0 ==> 0 < bounds.last().1 - bounds.last().0 <= size
}

/// The bounds of the batches in which accounts are refreshed side by side: as
/// many at a time as there are jobs, and at least one.
pub fn worker_batches(total: usize, jobs: usize) -> (bounds: Vec<(usize, usize)>)
    ensures
        is_batching(bounds@, total as nat, jobs as nat),
{
    let size: usize = if jobs == 0 {
        1
    } else {
        jobs
    };
    let mut bounds: Vec<(usize, usize)> = Vec::new();
    let mut from: usize = 0;
    while from < total
        invariant
            size == (if jobs == 0 {
                1
            } else {
                jobs
            }),
            from <= total,
            bounds@.len() == 0 <==> from == 0,
            bounds@.len() > 0 ==> bounds@[0].0 == 0 && bounds@.last().1 == from,
            forall|i: int|
                0 <= i < bounds@.len() - 1 ==> (#[trigger] bounds@[i]).1 - bounds@[i].0 == size
                    && bounds@[i].1 == bounds@[i + 1].0,
            bounds@.len() > 0 ==> 0 < bounds@.last().1 - bounds@.last().0 <= size,
            bounds@.len() > 0 && from < total ==> bounds@.last().1 - bounds@.last().0 == size,
        decreases total - from,
    {
        let to: usize = if total - from <= size {
            total
        } else {
            from + size
        };
        let ghost before = bounds@;
        bounds.push((from, to));
        proof {
            assert forall|i: int| 0 <= i < bounds@.len() - 1 implies (#[trigger] bounds@[i]).1
                - bounds@[i].0 == size && bounds@[i].1 == bounds@[i + 1].0 by {
                assert(bounds@[i] == before[i]);
                if i == before.len() - 1 {
                    assert(before[i] == before.last());
                } else {
                    assert(bounds@[i + 1] == before[i + 1]);
                }
            }
        }
        from = to;
    }
    bounds
}

/// Every account is refreshed in one batch, and in one only. The batches come
/// in the order of the accounts.
pub proof fn law_batches_cover(
    bounds: Seq<(usize, usize)>,
    total: nat,
    jobs: nat,
    account: int,
)
    requires
        is_batching(bounds, total, jobs),
        0 <= account < total,
    ensures
        exists|i: int|
            0 <= i < bounds.len() && (#[trigger] bounds[i]).0 <= account < bounds[i].1,
        forall|i: int, j: int|
            0 <= i < bounds.len() && 0 <= j < bounds.len() && (#[trigger] bounds[i]).0 <= account
                < bounds[i].1 && (#[trigger] bounds[j]).0 <= account < bounds[j].1 ==> i == j,
{
    lemma_some_batch(bounds, total, jobs, account, bounds.len() as int);
    assert forall|i: int, j: int|
        0 <= i < bounds.len() && 0 <= j < bounds.len() && (#[trigger] bounds[i]).0 <= account
            < bounds[i].1 && (#[trigger] bounds[j]).0 <= account < bounds[j].1 implies i == j by {
        if i < j {
            lemma_batches_ascend(bounds, total, jobs, i, j);
        } else if j < i {
            lemma_batches_ascend(bounds, total, jobs, j, i);
        }
    }
}

/// No batch is larger than the number of jobs, or than one where there are none,
/// and only the last is smaller.
pub proof fn law_batches_are_full(
    bounds: Seq<(usize, usize)>,
    total: nat,
    jobs: nat,
    i: int,
)
    requires
        is_batching(bounds, total, jobs),
        0 <= i < bounds.len(),
    ensures
        ({
            let size = bounds[i].1 - bounds[i].0;
            &&& 1 <= size
            &&& jobs >= 1 ==> size <= jobs
            &&& jobs == 0 ==> size == 1
            &&& i + 1 < bounds.len() && jobs >= 1 ==> size == jobs
        }),
{
    if i == bounds.len() - 1 {
        assert(bounds[i] == bounds.last());
    } else {
        assert(bounds[i].1 == bounds[i + 1].0);
    }
}

/// Batches do not overlap.
proof fn lemma_batches_ascend(
    bounds: Seq<(usize, usize)>,
    total: nat,
    jobs: nat,
    i: int,
    j: int,
)
    requires
        is_batching(bounds, total, jobs),
        0 <= i < j < bounds.len(),
    ensures
        bounds[i].1 <= bounds[j].0,
    decreases j - i,
{
    assert(bounds[i].1 == bounds[i + 1].0);
    if i + 1 < j {
        assert(bounds[i + 1].1 - bounds[i + 1].0 >= 0);
        lemma_batches_ascend(bounds, total, jobs, i + 1, j);
    }
}

/// An account before the end of some batches stands in one of them.
proof fn lemma_some_batch(
    bounds: Seq<(usize, usize)>,
    total: nat,
    jobs: nat,
    account: int,
    count: int,
)
    requires
        is_batching(bounds, total, jobs),
        0 < count <= bounds.len(),
        0 <= account < bounds[count - 1].1,
    ensures
        exists|i: int|
            0 <= i < bounds.len() && (#[trigger] bounds[i]).0 <= account < bounds[i].1,
    decreases count,
{
    if bounds[count - 1].0 > account {
        assert(count > 1);
        assert(bounds[count - 2].1 == bounds[count - 1].0);
        lemma_some_batch(bounds, total, jobs, account, count - 1);
    }
}

} // verus!
