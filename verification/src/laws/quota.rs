//! What the replies of the app server say of an account.

use vstd::prelude::*;
use vstd::utf8::*;

use crate::auth;
use crate::auth::AuthMetaView;
use crate::json;
use crate::json::JsonView;
use crate::probe;
use crate::probe::{FailureView, ProbeEvent, ProbeFailureKind, ProbeFault};
use crate::probe::{ServerState, SnapshotView, StepView};

verus! {

/// A member of a member of a value.
pub open spec fn inner(value: JsonView, outer: Seq<char>, name: Seq<char>) -> Option<JsonView> {
    match value.member(outer) {
        Some(part) => part.member(name),
        None => None,
    }
}

/// The integer, where there is a value and it is one.
pub open spec fn as_integer(value: Option<JsonView>) -> Option<i64> {
    match value {
        Some(JsonView::Integer(integer)) => Some(integer),
        _ => None,
    }
}

/// The truth value, where there is a value and it is one.
pub open spec fn as_truth(value: Option<JsonView>) -> Option<bool> {
    match value {
        Some(JsonView::Bool(truth)) => Some(truth),
        _ => None,
    }
}

/// Whether a snapshot tells the numbers and the credits of some limits.
pub open spec fn tells_limits(snapshot: SnapshotView, limits: JsonView) -> bool {
    &&& snapshot.primary_used_percent == as_integer(inner(limits, "primary"@, "usedPercent"@))
    &&& snapshot.primary_resets_at == as_integer(inner(limits, "primary"@, "resetsAt"@))
    &&& snapshot.secondary_used_percent == as_integer(inner(limits, "secondary"@, "usedPercent"@))
    &&& snapshot.credits_has_credits == as_truth(inner(limits, "credits"@, "hasCredits"@))
    &&& snapshot.credits_unlimited == as_truth(inner(limits, "credits"@, "unlimited"@))
}

/// Whether a snapshot tells of no limits.
pub open spec fn tells_nothing(snapshot: SnapshotView) -> bool {
    &&& snapshot.primary_used_percent is None
    &&& snapshot.primary_resets_at is None
    &&& snapshot.secondary_used_percent is None
    &&& snapshot.credits_has_credits is None
    &&& snapshot.credits_unlimited is None
}

/// Where the reply lists limits by name, and those of `codex` among them, the
/// snapshot tells those, whatever else the reply holds.
pub proof fn law_codex_limits_come_first(
    account: JsonView,
    reply: JsonView,
    listed: JsonView,
    codex: JsonView,
    meta: AuthMetaView,
    allowed: Seq<char>,
)
    requires
        reply.member("rateLimitsByLimitId"@) == Some(listed),
        listed.member("codex"@) == Some(codex),
    ensures
        tells_limits(probe::snapshot_of(account, Some(reply), meta, allowed), codex),
{
}

/// Where the reply lists limits by name, but none of `codex`, the snapshot tells
/// the first that it lists.
pub proof fn law_first_limits_come_next(
    account: JsonView,
    reply: JsonView,
    listed: Seq<(Seq<char>, JsonView)>,
    meta: AuthMetaView,
    allowed: Seq<char>,
)
    requires
        reply.member("rateLimitsByLimitId"@) == Some(JsonView::Object(listed)),
        listed.len() > 0,
        forall|i: int| 0 <= i < listed.len() ==> (#[trigger] listed[i]).0 != "codex"@,
    ensures
        tells_limits(probe::snapshot_of(account, Some(reply), meta, allowed), listed[0].1),
{
    json::law_no_member_of_another_name(listed, "codex"@);
}

/// The limits without a name count where the reply lists none by name: where
/// there is no list, where it is empty, and where it is no object.
pub proof fn law_general_limits_come_last(
    account: JsonView,
    reply: JsonView,
    meta: AuthMetaView,
    allowed: Seq<char>,
)
    requires
        reply.member("rateLimitsByLimitId"@) matches Some(listed) ==> listed
            == JsonView::Object(Seq::empty()) || !(listed is Object),
    ensures
        reply.member("rateLimits"@) matches Some(limits) ==> tells_limits(
            probe::snapshot_of(account, Some(reply), meta, allowed),
            limits,
        ),
        reply.member("rateLimits"@) is None ==> tells_nothing(
            probe::snapshot_of(account, Some(reply), meta, allowed),
        ),
{
    if let Some(JsonView::Object(members)) = reply.member("rateLimitsByLimitId"@) {
        json::law_no_member_of_another_name(members, "codex"@);
    }
}

/// Two replies that agree on the limits of `codex` give the same numbers.
pub proof fn law_nothing_beside_codex_counts(
    account: JsonView,
    reply: JsonView,
    other: JsonView,
    meta: AuthMetaView,
    allowed: Seq<char>,
)
    requires
        inner(reply, "rateLimitsByLimitId"@, "codex"@) is Some,
        inner(reply, "rateLimitsByLimitId"@, "codex"@) == inner(
            other,
            "rateLimitsByLimitId"@,
            "codex"@,
        ),
    ensures
        probe::snapshot_of(account, Some(reply), meta, allowed) == probe::snapshot_of(
            account,
            Some(other),
            meta,
            allowed,
        ),
{
}

/// The plan is the one that the account names, whatever the limits say.
pub proof fn law_plan_of_the_account(
    account: JsonView,
    limits: Option<JsonView>,
    meta: AuthMetaView,
    allowed: Seq<char>,
    plan: Seq<char>,
)
    requires
        inner(account, "account"@, "planType"@) == Some(JsonView::Text(plan)),
    ensures
        probe::snapshot_of(account, limits, meta, allowed).plan == Some(plan),
{
}

/// Where the account names no plan, it is the one that the limits name.
pub proof fn law_plan_of_the_limits(
    account: JsonView,
    reply: JsonView,
    codex: JsonView,
    meta: AuthMetaView,
    allowed: Seq<char>,
)
    requires
        !(inner(account, "account"@, "planType"@) matches Some(JsonView::Text(_))),
        inner(reply, "rateLimitsByLimitId"@, "codex"@) == Some(codex),
    ensures
        codex.member("planType"@) matches Some(JsonView::Text(plan)) ==> probe::snapshot_of(
            account,
            Some(reply),
            meta,
            allowed,
        ).plan == Some(plan),
        !(codex.member("planType"@) matches Some(JsonView::Text(_))) ==> probe::snapshot_of(
            account,
            Some(reply),
            meta,
            allowed,
        ).plan is None,
        probe::snapshot_of(account, None, meta, allowed).plan is None,
{
}

/// A snapshot is about the credentials that were left behind, and says whether
/// the limits came back; it warns where they did not, and only then.
pub proof fn law_snapshot_says_what_came_back(
    account: JsonView,
    limits: Option<JsonView>,
    meta: AuthMetaView,
    allowed: Seq<char>,
)
    ensures
        probe::snapshot_of(account, limits, meta, allowed).account_meta == meta,
        probe::snapshot_of(account, limits, meta, allowed).rate_limits_available
            <==> limits is Some,
        limits is Some ==> probe::snapshot_of(account, limits, meta, allowed).warnings.len() == 0,
        limits is None ==> probe::snapshot_of(account, limits, meta, allowed).warnings == seq![
            "account/rateLimits/read did not return within "@ + allowed,
        ],
        limits is None ==> tells_nothing(probe::snapshot_of(account, limits, meta, allowed)),
{
}

/// A message with the number of a request is kept as the reply to it; the other
/// replies stay.
pub proof fn law_reply_is_kept(
    replies: Map<i64, JsonView>,
    message: JsonView,
    id: i64,
    other: i64,
)
    requires
        message.member("id"@) == Some(JsonView::Integer(id)),
        other != id,
    ensures
        probe::with_message(replies, Some(message)).contains_key(id),
        probe::with_message(replies, Some(message))[id] == message,
        probe::with_message(replies, Some(message)).contains_key(other) <==> replies.contains_key(
            other,
        ),
        replies.contains_key(other) ==> probe::with_message(replies, Some(message))[other]
            == replies[other],
{
}

/// What is not a message, or bears no number, changes nothing.
pub proof fn law_no_reply_changes_nothing(
    replies: Map<i64, JsonView>,
    message: Option<JsonView>,
)
    requires
        message matches Some(message) ==> !(message.member("id"@) matches Some(
            JsonView::Integer(_),
        )),
    ensures
        probe::with_message(replies, message) == replies,
        probe::step_after_message(replies, message) == StepView::Wait,
{
}

/// A probe goes on until the replies to the second and the third request are
/// both there, and no longer.
pub proof fn law_over_with_both_replies(
    replies: Map<i64, JsonView>,
    message: JsonView,
    id: i64,
)
    requires
        message.member("id"@) == Some(JsonView::Integer(id)),
    ensures
        probe::step_after_message(replies, Some(message)) == StepView::Finish <==> (id == 2
            || replies.contains_key(2)) && (id == 3 || replies.contains_key(3)),
        probe::step_after_message(replies, Some(message)) == StepView::Finish
            || probe::step_after_message(replies, Some(message)) == StepView::Wait,
{
}

/// The result of a request is what its reply holds under that name.
pub proof fn law_result_of_a_request(replies: Map<i64, JsonView>, id: i64)
    ensures
        replies.contains_key(id) ==> probe::result_of(replies, id) == replies[id].member(
            "result"@,
        ),
        !replies.contains_key(id) ==> probe::result_of(replies, id) is None,
{
}

/// A server that says nothing is waited for while it runs, and when it has ended
/// well; where it ended badly, or nobody can tell, the probe fails and says what
/// the system said.
pub proof fn law_silence(status: &str)
    ensures
        probe::step_in_silence(ServerState::Running) == StepView::Wait,
        probe::step_in_silence(ServerState::ExitedWell) == StepView::Wait,
        probe::step_in_silence(ServerState::ExitedBadly(status)) == StepView::Fail(
            FailureView {
                kind: ProbeFailureKind::AppServerExit,
                message: "codex app-server exited with "@ + status@,
            },
        ),
        probe::step_in_silence(ServerState::Unknown(status)) == StepView::Fail(
            FailureView {
                kind: ProbeFailureKind::AppServerExit,
                message: "poll codex app-server failed: "@ + status@,
            },
        ),
{
}

/// Whether a text ends in another one.
pub open spec fn ends_in(text: Seq<char>, end: Seq<char>) -> bool {
    text.len() >= end.len() && text.skip(text.len() - end.len()) == end
}

/// A failure is of the kind of the point at which the probe failed, and ends in
/// what the system said there.
pub proof fn law_fault_decides_the_failure(detail: &str)
    ensures
        ProbeFault::ReadAuth(detail).as_failure().kind == ProbeFailureKind::AuthFileRead,
        ProbeFault::CreateTempDir(detail).as_failure().kind == ProbeFailureKind::AuthFileRead,
        ProbeFault::WriteTempAuth(detail).as_failure().kind == ProbeFailureKind::AuthFileRead,
        ProbeFault::Spawn(detail).as_failure().kind == ProbeFailureKind::AppServerSpawn,
        ProbeFault::WriteRequest(detail).as_failure().kind == ProbeFailureKind::AppServerSpawn,
        ProbeFault::NoStdin.as_failure().kind == ProbeFailureKind::AppServerSpawn,
        ProbeFault::NoStdout.as_failure().kind == ProbeFailureKind::AppServerSpawn,
        ProbeFault::Poll(detail).as_failure().kind == ProbeFailureKind::AppServerExit,
        ProbeFault::Exited(detail).as_failure().kind == ProbeFailureKind::AppServerExit,
        ends_in(ProbeFault::ReadAuth(detail).as_failure().message, detail@),
        ends_in(ProbeFault::CreateTempDir(detail).as_failure().message, detail@),
        ends_in(ProbeFault::WriteTempAuth(detail).as_failure().message, detail@),
        ends_in(ProbeFault::Spawn(detail).as_failure().message, detail@),
        ends_in(ProbeFault::WriteRequest(detail).as_failure().message, detail@),
        ends_in(ProbeFault::Poll(detail).as_failure().message, detail@),
        ends_in(ProbeFault::Exited(detail).as_failure().message, detail@),
{
    lemma_end("read auth file failed: "@, detail@);
    lemma_end("create temp dir failed: "@, detail@);
    lemma_end("write temp auth file failed: "@, detail@);
    lemma_end("spawn codex app-server failed: "@, detail@);
    lemma_end("write app-server request failed: "@, detail@);
    lemma_end("poll codex app-server failed: "@, detail@);
    lemma_end("codex app-server exited with "@, detail@);
}

proof fn lemma_end(start: Seq<char>, end: Seq<char>)
    ensures
        ends_in(start + end, end),
{
    assert((start + end).skip(start.len() as int) =~= end);
}

/// A line that reads as a message with the number of a request is kept as the
/// reply to it, and ends the probe where it completes what was asked for.
pub proof fn law_line_is_read(
    replies: Map<i64, JsonView>,
    line: &str,
    message: JsonView,
    id: i64,
)
    requires
        json::json_parsed(encode_utf8(line@)) == Ok::<JsonView, Seq<char>>(message),
        message.member("id"@) == Some(JsonView::Integer(id)),
    ensures
        probe::replies_after(replies, ProbeEvent::Line(line)) == replies.insert(id, message),
        probe::step_after(replies, ProbeEvent::Line(line)) == StepView::Finish <==> (id == 2
            || replies.contains_key(2)) && (id == 3 || replies.contains_key(3)),
{
    law_over_with_both_replies(replies, message, id);
}

/// A line that is no message, or bears no number, changes nothing, and the probe
/// goes on.
pub proof fn law_other_lines_are_passed_over(replies: Map<i64, JsonView>, line: &str)
    requires
        json::json_parsed(encode_utf8(line@)) matches Ok(message) ==> !(message.member("id"@)
            matches Some(JsonView::Integer(_))),
    ensures
        probe::replies_after(replies, ProbeEvent::Line(line)) == replies,
        probe::step_after(replies, ProbeEvent::Line(line)) == StepView::Wait,
{
    law_no_reply_changes_nothing(replies, probe::message_in(line@));
}

/// Nothing but a line brings a reply. The probe is over when the output cannot be
/// read, when it is closed, and when the time is up.
pub proof fn law_other_events(replies: Map<i64, JsonView>, event: ProbeEvent)
    requires
        !(event is Line),
    ensures
        probe::replies_after(replies, event) == replies,
        event is ReadFailed || event is Closed || event is TimeUp ==> probe::step_after(
            replies,
            event,
        ) == StepView::Finish,
        event matches ProbeEvent::Silence(state) ==> probe::step_after(replies, event)
            == probe::step_in_silence(state),
{
}

/// Where the account was not heard of in time, the failure says so, and how long
/// it was waited for.
pub proof fn law_account_not_heard_of(allowed: Seq<char>)
    ensures
        probe::account_timeout(allowed).kind == ProbeFailureKind::AccountReadTimeout,
        probe::account_timeout(allowed).message == "account/read did not return within "@
            + allowed,
{
}

/// A probe succeeds where the account was heard of, and only then. It brings back
/// the credentials that the server left behind, where it left any, else those
/// that it was given; and what was seen is about those credentials.
pub proof fn law_server_credentials_come_back(
    replies: Map<i64, JsonView>,
    original: JsonView,
    left: JsonView,
    allowed: Seq<char>,
)
    ensures
        ({
            let heard = replies.contains_key(2) && replies[2].member("result"@) is Some;
            let with = probe::concluded(replies, original, Some(left), allowed);
            let without = probe::concluded(replies, original, None, allowed);
            &&& with is Ok <==> heard
            &&& without is Ok <==> heard
            &&& heard ==> with->Ok_0.0 == left && without->Ok_0.0 == original
            &&& heard ==> with->Ok_0.1.account_meta == auth::meta_of(left)
                && without->Ok_0.1.account_meta == auth::meta_of(original)
            &&& heard ==> with->Ok_0.1 == probe::snapshot_of(
                replies[2].member("result"@)->0,
                probe::result_of(replies, 3),
                auth::meta_of(left),
                allowed,
            )
            &&& !heard ==> with->Err_0 == probe::account_timeout(allowed) && without->Err_0
                == probe::account_timeout(allowed)
        }),
{
}

} // verus!
