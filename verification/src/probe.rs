//! Asking the app server about an account: what is sent, what comes back, and
//! what can go wrong.

use std::collections::HashMap;

use vstd::prelude::*;
use vstd::string::*;
use vstd::utf8::*;

use crate::auth;
use crate::auth::{extract_meta, AuthMeta, AuthMetaView};
use crate::json;
use crate::json::{bool_in, first_in, get_in, i64_in, pair, single, str_in, Json, JsonView};
use crate::text;
use crate::text::copied;

verus! {

/// What a probe saw of an account.
#[derive(Debug)]
pub struct ProbeSnapshot {
    pub account_meta: AuthMeta,
    pub plan: Option<String>,
    pub primary_used_percent: Option<i64>,
    pub secondary_used_percent: Option<i64>,
    pub primary_resets_at: Option<i64>,
    pub credits_has_credits: Option<bool>,
    pub credits_unlimited: Option<bool>,
    pub rate_limits_available: bool,
    pub warnings: Vec<String>,
}

/// What a `ProbeSnapshot` says.
#[verifier::ext_equal]
pub struct SnapshotView {
    pub account_meta: AuthMetaView,
    pub plan: Option<Seq<char>>,
    pub primary_used_percent: Option<i64>,
    pub secondary_used_percent: Option<i64>,
    pub primary_resets_at: Option<i64>,
    pub credits_has_credits: Option<bool>,
    pub credits_unlimited: Option<bool>,
    pub rate_limits_available: bool,
    pub warnings: Seq<Seq<char>>,
}

impl View for ProbeSnapshot {
    type V = SnapshotView;

    open spec fn view(&self) -> SnapshotView {
        SnapshotView {
            account_meta: self.account_meta@,
            plan: self.plan.deep_view(),
            primary_used_percent: self.primary_used_percent,
            secondary_used_percent: self.secondary_used_percent,
            primary_resets_at: self.primary_resets_at,
            credits_has_credits: self.credits_has_credits,
            credits_unlimited: self.credits_unlimited,
            rate_limits_available: self.rate_limits_available,
            warnings: self.warnings.deep_view(),
        }
    }
}

impl Clone for ProbeSnapshot {
    fn clone(&self) -> (copy: Self)
        ensures
            copy@ == self@,
    {
        ProbeSnapshot {
            account_meta: self.account_meta.clone(),
            plan: self.plan.clone(),
            primary_used_percent: self.primary_used_percent,
            secondary_used_percent: self.secondary_used_percent,
            primary_resets_at: self.primary_resets_at,
            credits_has_credits: self.credits_has_credits,
            credits_unlimited: self.credits_unlimited,
            rate_limits_available: self.rate_limits_available,
            warnings: copied(&self.warnings),
        }
    }
}

/// What a probe brought back: the credentials, refreshed where the server did
/// so, and what it saw of the account.
#[derive(Debug)]
pub struct ProbeOutput {
    pub refreshed_auth: Json,
    pub snapshot: ProbeSnapshot,
}

impl Clone for ProbeOutput {
    fn clone(&self) -> (copy: Self)
        ensures
            copy.refreshed_auth@ == self.refreshed_auth@,
            copy.snapshot@ == self.snapshot@,
    {
        ProbeOutput {
            refreshed_auth: self.refreshed_auth.clone(),
            snapshot: self.snapshot.clone(),
        }
    }
}

/// The kinds of failure of a probe.
#[derive(Debug, Clone, Copy, PartialEq, Eq, Structural)]
pub enum ProbeFailureKind {
    AppServerSpawn,
    AppServerExit,
    AccountReadTimeout,
    AuthFileRead,
}

impl ProbeFailureKind {
    /// The word that stands for the kind.
    pub open spec fn word(self) -> Seq<char> {
        match self {
            ProbeFailureKind::AppServerSpawn => "app_server_spawn"@,
            ProbeFailureKind::AppServerExit => "app_server_exit"@,
            ProbeFailureKind::AccountReadTimeout => "account_read_timeout"@,
            ProbeFailureKind::AuthFileRead => "auth_file_read"@,
        }
    }

    /// The word that stands for the kind.
    pub fn as_str(self) -> (word: &'static str)
        ensures
            word@ == self.word(),
    {
        match self {
            ProbeFailureKind::AppServerSpawn => "app_server_spawn",
            ProbeFailureKind::AppServerExit => "app_server_exit",
            ProbeFailureKind::AccountReadTimeout => "account_read_timeout",
            ProbeFailureKind::AuthFileRead => "auth_file_read",
        }
    }
}

/// Why a probe failed.
#[derive(Debug)]
pub struct ProbeFailure {
    pub kind: ProbeFailureKind,
    pub message: String,
}

/// What a `ProbeFailure` says.
#[verifier::ext_equal]
pub struct FailureView {
    pub kind: ProbeFailureKind,
    pub message: Seq<char>,
}

impl View for ProbeFailure {
    type V = FailureView;

    open spec fn view(&self) -> FailureView {
        FailureView { kind: self.kind, message: self.message@ }
    }
}

impl Clone for ProbeFailure {
    fn clone(&self) -> (copy: Self)
        ensures
            copy@ == self@,
    {
        ProbeFailure { kind: self.kind, message: self.message.clone() }
    }
}

/// The points at which a probe can fail, with what the system said there.
pub enum ProbeFault<'a> {
    ReadAuth(&'a str),
    CreateTempDir(&'a str),
    WriteTempAuth(&'a str),
    Spawn(&'a str),
    NoStdin,
    WriteRequest(&'a str),
    NoStdout,
    Poll(&'a str),
    Exited(&'a str),
}

impl<'a> ProbeFault<'a> {
    /// The failure that a fault amounts to.
    pub open spec fn as_failure(self) -> FailureView {
        match self {
            ProbeFault::ReadAuth(detail) => FailureView {
                kind: ProbeFailureKind::AuthFileRead,
                message: "read auth file failed: "@ + detail@,
            },
            ProbeFault::CreateTempDir(detail) => FailureView {
                kind: ProbeFailureKind::AuthFileRead,
                message: "create temp dir failed: "@ + detail@,
            },
            ProbeFault::WriteTempAuth(detail) => FailureView {
                kind: ProbeFailureKind::AuthFileRead,
                message: "write temp auth file failed: "@ + detail@,
            },
            ProbeFault::Spawn(detail) => FailureView {
                kind: ProbeFailureKind::AppServerSpawn,
                message: "spawn codex app-server failed: "@ + detail@,
            },
            ProbeFault::NoStdin => FailureView {
                kind: ProbeFailureKind::AppServerSpawn,
                message: "capture stdin failed"@,
            },
            ProbeFault::WriteRequest(detail) => FailureView {
                kind: ProbeFailureKind::AppServerSpawn,
                message: "write app-server request failed: "@ + detail@,
            },
            ProbeFault::NoStdout => FailureView {
                kind: ProbeFailureKind::AppServerSpawn,
                message: "capture stdout failed"@,
            },
            ProbeFault::Poll(detail) => FailureView {
                kind: ProbeFailureKind::AppServerExit,
                message: "poll codex app-server failed: "@ + detail@,
            },
            ProbeFault::Exited(detail) => FailureView {
                kind: ProbeFailureKind::AppServerExit,
                message: "codex app-server exited with "@ + detail@,
            },
        }
    }
}

/// Two texts in a row.
fn sentence(start: &str, end: &str) -> (text: String)
    ensures
        text@ == start@ + end@,
{
    let mut text = start.to_owned();
    text.append(end);
    text
}

/// The failure that a fault amounts to.
pub fn probe_failure(fault: ProbeFault) -> (failure: ProbeFailure)
    ensures
        failure@ == fault.as_failure(),
{
    match fault {
        ProbeFault::ReadAuth(detail) => ProbeFailure {
            kind: ProbeFailureKind::AuthFileRead,
            message: sentence("read auth file failed: ", detail),
        },
        ProbeFault::CreateTempDir(detail) => ProbeFailure {
            kind: ProbeFailureKind::AuthFileRead,
            message: sentence("create temp dir failed: ", detail),
        },
        ProbeFault::WriteTempAuth(detail) => ProbeFailure {
            kind: ProbeFailureKind::AuthFileRead,
            message: sentence("write temp auth file failed: ", detail),
        },
        ProbeFault::Spawn(detail) => ProbeFailure {
            kind: ProbeFailureKind::AppServerSpawn,
            message: sentence("spawn codex app-server failed: ", detail),
        },
        ProbeFault::NoStdin => ProbeFailure {
            kind: ProbeFailureKind::AppServerSpawn,
            message: "capture stdin failed".to_owned(),
        },
        ProbeFault::WriteRequest(detail) => ProbeFailure {
            kind: ProbeFailureKind::AppServerSpawn,
            message: sentence("write app-server request failed: ", detail),
        },
        ProbeFault::NoStdout => ProbeFailure {
            kind: ProbeFailureKind::AppServerSpawn,
            message: "capture stdout failed".to_owned(),
        },
        ProbeFault::Poll(detail) => ProbeFailure {
            kind: ProbeFailureKind::AppServerExit,
            message: sentence("poll codex app-server failed: ", detail),
        },
        ProbeFault::Exited(detail) => ProbeFailure {
            kind: ProbeFailureKind::AppServerExit,
            message: sentence("codex app-server exited with ", detail),
        },
    }
}

/// How the standard library writes a duration of whole seconds.
pub uninterp spec fn seconds_text(seconds: u64) -> Seq<char>;

/// The `Debug` text of `std::time::Duration::from_secs`. How it reads is not
/// stated.
#[verifier::external_body]
fn write_seconds(seconds: u64) -> (text: String)
    ensures
        text@ == seconds_text(seconds),
{
    format!("{:?}", std::time::Duration::from_secs(seconds))
}

/// The limits that a reply to `account/rateLimits/read` puts first: those of
/// `codex`, or else the first that it lists, or else those without a name.
pub open spec fn quota_in(limits: JsonView) -> Option<JsonView> {
    let by_id = limits.member("rateLimitsByLimitId"@);
    text::first_of(
        text::first_of(json::member_of(by_id, "codex"@), json::first_member_of(by_id)),
        limits.member("rateLimits"@),
    )
}

/// The limits that a reply puts first, if there is a reply.
pub open spec fn quota_of(limits: Option<JsonView>) -> Option<JsonView> {
    match limits {
        Some(limits) => quota_in(limits),
        None => None,
    }
}

/// What the replies of the app server say of an account, given how the time
/// that they had is written.
pub open spec fn snapshot_of(
    account_result: JsonView,
    limits_result: Option<JsonView>,
    account_meta: AuthMetaView,
    allowed: Seq<char>,
) -> SnapshotView {
    let account = account_result.member("account"@);
    let quota = quota_of(limits_result);
    let primary = json::member_of(quota, "primary"@);
    let secondary = json::member_of(quota, "secondary"@);
    let credits = json::member_of(quota, "credits"@);
    SnapshotView {
        account_meta,
        plan: text::first_of(
            json::text_of(json::member_of(account, "planType"@)),
            json::text_of(json::member_of(quota, "planType"@)),
        ),
        primary_used_percent: json::integer_of(json::member_of(primary, "usedPercent"@)),
        secondary_used_percent: json::integer_of(json::member_of(secondary, "usedPercent"@)),
        primary_resets_at: json::integer_of(json::member_of(primary, "resetsAt"@)),
        credits_has_credits: json::boolean_of(json::member_of(credits, "hasCredits"@)),
        credits_unlimited: json::boolean_of(json::member_of(credits, "unlimited"@)),
        rate_limits_available: limits_result is Some,
        warnings: if limits_result is Some {
            Seq::empty()
        } else {
            seq!["account/rateLimits/read did not return within "@ + allowed]
        },
    }
}

/// The limits that a reply to `account/rateLimits/read` puts first; nothing
/// where it names none.
pub fn primary_snapshot(limits_result: &Json) -> (quota: Option<&Json>)
    ensures
        json::json_view(quota) == quota_in(limits_result@),
{
    let by_id = limits_result.get("rateLimitsByLimitId");
    match get_in(by_id, "codex") {
        Some(quota) => Some(quota),
        None => match first_in(by_id) {
            Some(quota) => Some(quota),
            None => limits_result.get("rateLimits"),
        },
    }
}

/// What the replies of the app server say of an account, given how the time
/// that they had is written.
pub fn snapshot_from_replies(
    account_result: &Json,
    limits_result: Option<&Json>,
    account_meta: AuthMeta,
    allowed: &str,
) -> (snapshot: ProbeSnapshot)
    ensures
        snapshot@ == snapshot_of(
            account_result@,
            json::json_view(limits_result),
            account_meta@,
            allowed@,
        ),
{
    let account = account_result.get("account");
    let mut warnings: Vec<String> = Vec::new();
    if limits_result.is_none() {
        warnings.push(sentence("account/rateLimits/read did not return within ", allowed));
    }
    let quota = match limits_result {
        Some(limits) => primary_snapshot(limits),
        None => None,
    };
    let primary = get_in(quota, "primary");
    let secondary = get_in(quota, "secondary");
    let credits = get_in(quota, "credits");
    let plan = match str_in(get_in(account, "planType")) {
        Some(plan) => Some(plan.to_owned()),
        None => match str_in(get_in(quota, "planType")) {
            Some(plan) => Some(plan.to_owned()),
            None => None,
        },
    };
    let snapshot = ProbeSnapshot {
        account_meta,
        plan,
        primary_used_percent: i64_in(get_in(primary, "usedPercent")),
        secondary_used_percent: i64_in(get_in(secondary, "usedPercent")),
        primary_resets_at: i64_in(get_in(primary, "resetsAt")),
        credits_has_credits: bool_in(get_in(credits, "hasCredits")),
        credits_unlimited: bool_in(get_in(credits, "unlimited")),
        rate_limits_available: limits_result.is_some(),
        warnings,
    };
    proof {
        let said = snapshot_of(
            account_result@,
            json::json_view(limits_result),
            account_meta@,
            allowed@,
        );
        assert(snapshot@.warnings =~= said.warnings);
    }
    snapshot
}

/// What the replies of the app server say of an account, given the seconds that
/// they had.
pub fn parse_snapshot(
    account_result: &Json,
    limits_result: Option<&Json>,
    account_meta: AuthMeta,
    timeout: u64,
) -> (snapshot: ProbeSnapshot)
    ensures
        snapshot@ == snapshot_of(
            account_result@,
            json::json_view(limits_result),
            account_meta@,
            seconds_text(timeout),
        ),
{
    let allowed = write_seconds(timeout);
    snapshot_from_replies(account_result, limits_result, account_meta, allowed.as_str())
}

/// A request of the protocol.
pub open spec fn request_tree(id: i64, method: Seq<char>, params: JsonView) -> JsonView {
    JsonView::Object(
        seq![
            ("id"@, JsonView::Integer(id)),
            ("jsonrpc"@, JsonView::Text("2.0"@)),
            ("method"@, JsonView::Text(method)),
            ("params"@, params),
        ],
    )
}

/// The name and version under which the pool speaks to the app server.
pub open spec fn client_info() -> JsonView {
    JsonView::Object(
        seq![
            ("name"@, JsonView::Text("codex-pool-rs"@)),
            ("version"@, JsonView::Text("0.1"@)),
        ],
    )
}

/// What the opening request says of the client.
pub open spec fn initialize_params() -> JsonView {
    JsonView::Object(seq![("capabilities"@, JsonView::Null), ("clientInfo"@, client_info())])
}

/// What the request for the account says: that the token is to be refreshed.
pub open spec fn account_params() -> JsonView {
    JsonView::Object(seq![("refreshToken"@, JsonView::Bool(true))])
}

/// What is sent to the app server: the opening request, the request for the
/// account, and the request for its limits.
pub open spec fn probe_requests() -> Seq<JsonView> {
    seq![
        request_tree(1, "initialize"@, initialize_params()),
        request_tree(2, "account/read"@, account_params()),
        request_tree(3, "account/rateLimits/read"@, JsonView::Null),
    ]
}

/// The members of a request stand in the order of their names.
proof fn lemma_request_order()
    ensures
        text::before("id"@, "jsonrpc"@),
        text::before("jsonrpc"@, "method"@),
        text::before("method"@, "params"@),
        text::before("capabilities"@, "clientInfo"@),
        text::before("name"@, "version"@),
{
    reveal_strlit("id");
    reveal_strlit("jsonrpc");
    reveal_strlit("method");
    reveal_strlit("params");
    reveal_strlit("capabilities");
    reveal_strlit("clientInfo");
    reveal_strlit("name");
    reveal_strlit("version");
    assert(text::before_at("id"@, "jsonrpc"@, 0));
    assert(text::before_at("jsonrpc"@, "method"@, 0));
    assert(text::before_at("method"@, "params"@, 0));
    assert(text::before_at("capabilities"@, "clientInfo"@, 1));
    assert(text::before_at("name"@, "version"@, 0));
}

/// A request of the protocol.
fn request(id: i64, method: &str, params: Json) -> (request: Json)
    requires
        params@.ordered(),
    ensures
        request@ == request_tree(id, method@, params@),
        request@.ordered(),
{
    let mut members: Vec<(String, Json)> = Vec::new();
    members.push(("id".to_owned(), Json::Integer(id)));
    members.push(("jsonrpc".to_owned(), Json::Text("2.0".to_owned())));
    members.push(("method".to_owned(), Json::Text(method.to_owned())));
    members.push(("params".to_owned(), params));
    proof {
        lemma_request_order();
        json::lemma_object_view(members);
        assert(json::members_view(members@) =~= request_tree(id, method@, params@)->Object_0);
        reveal_with_fuel(JsonView::ordered, 2);
    }
    Json::Object(members)
}

/// What is sent to the app server, one line each.
pub fn build_probe_messages() -> (messages: Vec<String>)
    ensures
        messages.deep_view() == probe_requests().map_values(|tree: JsonView| json::json_text(tree)),
        forall|i: int| 0 <= i < messages@.len() ==> json::one_line(#[trigger] messages@[i]@),
{
    proof {
        lemma_request_order();
    }
    let client = pair(
        "name",
        Json::Text("codex-pool-rs".to_owned()),
        "version",
        Json::Text("0.1".to_owned()),
    );
    let opening = pair("capabilities", Json::Null, "clientInfo", client);
    let mut messages: Vec<String> = Vec::new();
    messages.push(request(1, "initialize", opening).to_text());
    messages.push(request(2, "account/read", single("refreshToken", Json::Bool(true))).to_text());
    messages.push(request(3, "account/rateLimits/read", Json::Null).to_text());
    proof {
        assert(messages.deep_view() =~= probe_requests().map_values(
            |tree: JsonView| json::json_text(tree),
        ));
    }
    messages
}

/// The replies that the app server has given so far, by the number of the
/// request.
pub struct ProbeSession {
    pub responses: HashMap<i64, Json>,
}

impl View for ProbeSession {
    type V = Map<i64, JsonView>;

    open spec fn view(&self) -> Map<i64, JsonView> {
        self.responses@.map_values(|reply: Json| reply@)
    }
}

/// What the app server is doing while it says nothing.
pub enum ServerState<'a> {
    Running,
    ExitedWell,
    ExitedBadly(&'a str),
    Unknown(&'a str),
}

/// What happens while replies are waited for.
pub enum ProbeEvent<'a> {
    /// The server wrote a line.
    Line(&'a str),
    /// What the server wrote could not be read.
    ReadFailed,
    /// The server wrote nothing for a while.
    Silence(ServerState<'a>),
    /// The server closed its output.
    Closed,
    /// The time is up.
    TimeUp,
}

/// What is done next.
pub enum ProbeStep {
    Wait,
    Finish,
    Fail(ProbeFailure),
}

/// What is done next, as far as it matters.
#[verifier::ext_equal]
pub enum StepView {
    Wait,
    Finish,
    Fail(FailureView),
}

impl View for ProbeStep {
    type V = StepView;

    open spec fn view(&self) -> StepView {
        match self {
            ProbeStep::Wait => StepView::Wait,
            ProbeStep::Finish => StepView::Finish,
            ProbeStep::Fail(failure) => StepView::Fail(failure@),
        }
    }
}

/// The replies after a message of the server. A message without the number of
/// a request is not a reply.
pub open spec fn with_message(replies: Map<i64, JsonView>, message: Option<JsonView>) -> Map<
    i64,
    JsonView,
> {
    match json::integer_of(json::member_of(message, "id"@)) {
        Some(id) => replies.insert(id, message->0),
        None => replies,
    }
}

/// Whether the replies about the account and about its limits are both there.
pub open spec fn complete(replies: Map<i64, JsonView>) -> bool {
    replies.contains_key(2) && replies.contains_key(3)
}

/// What is done after a message of the server: the probe is over once a reply
/// completes what was asked for.
pub open spec fn step_after_message(
    replies: Map<i64, JsonView>,
    message: Option<JsonView>,
) -> StepView {
    if json::integer_of(json::member_of(message, "id"@)) is Some && complete(
        with_message(replies, message),
    ) {
        StepView::Finish
    } else {
        StepView::Wait
    }
}

/// The message in a line of the server, if it is one.
pub open spec fn message_in(line: Seq<char>) -> Option<JsonView> {
    match json::json_parsed(encode_utf8(line)) {
        Ok(message) => Some(message),
        Err(_) => None,
    }
}

/// What is done when the server says nothing: it is waited for, unless it has
/// ended badly or nobody can tell.
pub open spec fn step_in_silence(state: ServerState) -> StepView {
    match state {
        ServerState::Running => StepView::Wait,
        ServerState::ExitedWell => StepView::Wait,
        ServerState::ExitedBadly(status) => StepView::Fail(
            ProbeFault::Exited(status).as_failure(),
        ),
        ServerState::Unknown(error) => StepView::Fail(ProbeFault::Poll(error).as_failure()),
    }
}

/// The replies after an event.
pub open spec fn replies_after(replies: Map<i64, JsonView>, event: ProbeEvent) -> Map<
    i64,
    JsonView,
> {
    match event {
        ProbeEvent::Line(line) => with_message(replies, message_in(line@)),
        _ => replies,
    }
}

/// What is done after an event.
pub open spec fn step_after(replies: Map<i64, JsonView>, event: ProbeEvent) -> StepView {
    match event {
        ProbeEvent::Line(line) => step_after_message(replies, message_in(line@)),
        ProbeEvent::Silence(state) => step_in_silence(state),
        ProbeEvent::ReadFailed => StepView::Finish,
        ProbeEvent::Closed => StepView::Finish,
        ProbeEvent::TimeUp => StepView::Finish,
    }
}

/// The result in the reply to a request.
pub open spec fn result_of(replies: Map<i64, JsonView>, id: i64) -> Option<JsonView> {
    if replies.contains_key(id) {
        replies[id].member("result"@)
    } else {
        None
    }
}

/// The failure where the account was not heard of in time.
pub open spec fn account_timeout(allowed: Seq<char>) -> FailureView {
    FailureView {
        kind: ProbeFailureKind::AccountReadTimeout,
        message: "account/read did not return within "@ + allowed,
    }
}

/// The credentials after a probe: those that the server left behind, or else
/// those that it was given.
pub open spec fn surviving(original: JsonView, left_behind: Option<JsonView>) -> JsonView {
    match left_behind {
        Some(left) => left,
        None => original,
    }
}

/// What the replies of the server come to: the credentials and what was seen of
/// the account, or that the account was not heard of.
pub open spec fn concluded(
    replies: Map<i64, JsonView>,
    original: JsonView,
    left_behind: Option<JsonView>,
    allowed: Seq<char>,
) -> Result<(JsonView, SnapshotView), FailureView> {
    let auth = surviving(original, left_behind);
    match result_of(replies, 2) {
        Some(account) => Ok(
            (auth, snapshot_of(account, result_of(replies, 3), auth::meta_of(auth), allowed)),
        ),
        None => Err(account_timeout(allowed)),
    }
}

/// What a probe brought back, or why it failed.
pub open spec fn output_view(output: Result<ProbeOutput, ProbeFailure>) -> Result<
    (JsonView, SnapshotView),
    FailureView,
> {
    match output {
        Ok(output) => Ok((output.refreshed_auth@, output.snapshot@)),
        Err(failure) => Err(failure@),
    }
}

/// What a document that may be missing says.
pub open spec fn left_view(left_behind: Option<Json>) -> Option<JsonView> {
    match left_behind {
        Some(left) => Some(left@),
        None => None,
    }
}

impl ProbeSession {
    /// A session without replies.
    pub fn new() -> (session: ProbeSession)
        ensures
            session@ == Map::<i64, JsonView>::empty(),
    {
        broadcast use vstd::std_specs::hash::group_hash_axioms;

        let session = ProbeSession { responses: HashMap::new() };
        assert(session@ =~= Map::<i64, JsonView>::empty());
        session
    }

    /// Takes in what the server said.
    pub fn accept(&mut self, message: Option<Json>) -> (step: ProbeStep)
        ensures
            final(self)@ == with_message(old(self)@, match message {
                Some(message) => Some(message@),
                None => None,
            }),
            step@ == step_after_message(old(self)@, match message {
                Some(message) => Some(message@),
                None => None,
            }),
    {
        broadcast use vstd::std_specs::hash::group_hash_axioms;

        let ghost before = self@;
        match message {
            None => ProbeStep::Wait,
            Some(message) => match i64_in(message.get("id")) {
                None => ProbeStep::Wait,
                Some(id) => {
                    self.responses.insert(id, message);
                    assert(self@ =~= before.insert(id, message@));
                    if self.responses.contains_key(&2) && self.responses.contains_key(&3) {
                        ProbeStep::Finish
                    } else {
                        ProbeStep::Wait
                    }
                },
            },
        }
    }

    /// Takes in what happened and says what is done next.
    pub fn step(&mut self, event: ProbeEvent) -> (step: ProbeStep)
        ensures
            final(self)@ == replies_after(old(self)@, event),
            step@ == step_after(old(self)@, event),
    {
        match event {
            ProbeEvent::Line(line) => {
                let message = match Json::parse(line.as_bytes()) {
                    Ok(message) => Some(message),
                    Err(_) => None,
                };
                self.accept(message)
            },
            ProbeEvent::ReadFailed => ProbeStep::Finish,
            ProbeEvent::Silence(ServerState::Running) => ProbeStep::Wait,
            ProbeEvent::Silence(ServerState::ExitedWell) => ProbeStep::Wait,
            ProbeEvent::Silence(ServerState::ExitedBadly(status)) => ProbeStep::Fail(
                probe_failure(ProbeFault::Exited(status)),
            ),
            ProbeEvent::Silence(ServerState::Unknown(error)) => ProbeStep::Fail(
                probe_failure(ProbeFault::Poll(error)),
            ),
            ProbeEvent::Closed => ProbeStep::Finish,
            ProbeEvent::TimeUp => ProbeStep::Finish,
        }
    }

    /// The result in the reply to a request.
    fn result(&self, id: i64) -> (result: Option<&Json>)
        ensures
            json::json_view(result) == result_of(self@, id),
    {
        broadcast use vstd::std_specs::hash::group_hash_axioms;

        match self.responses.get(&id) {
            Some(reply) => {
                assert(self@[id] == reply@);
                reply.get("result")
            },
            None => None,
        }
    }

    /// What the probe brought back, given how the time that it had is written
    /// and the credentials that the server left behind, if they can be read.
    pub fn conclude(
        &self,
        original_auth: Json,
        left_behind: Option<Json>,
        allowed: &str,
    ) -> (output: Result<ProbeOutput, ProbeFailure>)
        ensures
            output_view(output) == concluded(
                self@,
                original_auth@,
                left_view(left_behind),
                allowed@,
            ),
            output is Ok <==> result_of(self@, 2) is Some,
            output matches Ok(output) ==> {
                let auth = match left_behind {
                    Some(auth) => auth@,
                    None => original_auth@,
                };
                &&& output.refreshed_auth@ == auth
                &&& output.snapshot@ == snapshot_of(
                    result_of(self@, 2)->0,
                    result_of(self@, 3),
                    auth::meta_of(auth),
                    allowed@,
                )
            },
            output matches Err(failure) ==> failure@ == account_timeout(allowed@),
    {
        match self.result(2) {
            None => Err(
                ProbeFailure {
                    kind: ProbeFailureKind::AccountReadTimeout,
                    message: sentence("account/read did not return within ", allowed),
                },
            ),
            Some(account_result) => {
                let refreshed_auth = match left_behind {
                    Some(auth) => auth,
                    None => original_auth,
                };
                let meta = extract_meta(&refreshed_auth);
                let snapshot = snapshot_from_replies(account_result, self.result(3), meta, allowed);
                Ok(ProbeOutput { refreshed_auth, snapshot })
            },
        }
    }

    /// What the probe brought back, given the seconds that it had and the
    /// credentials that the server left behind, if they can be read.
    pub fn finish(
        &self,
        original_auth: Json,
        left_behind: Option<Json>,
        timeout: u64,
    ) -> (output: Result<ProbeOutput, ProbeFailure>)
        ensures
            output_view(output) == concluded(
                self@,
                original_auth@,
                left_view(left_behind),
                seconds_text(timeout),
            ),
            output is Ok <==> result_of(self@, 2) is Some,
            output matches Ok(output) ==> {
                let auth = match left_behind {
                    Some(auth) => auth@,
                    None => original_auth@,
                };
                &&& output.refreshed_auth@ == auth
                &&& output.snapshot@ == snapshot_of(
                    result_of(self@, 2)->0,
                    result_of(self@, 3),
                    auth::meta_of(auth),
                    seconds_text(timeout),
                )
            },
            output matches Err(failure) ==> failure@ == account_timeout(seconds_text(timeout)),
    {
        let allowed = write_seconds(timeout);
        self.conclude(original_auth, left_behind, allowed.as_str())
    }
}

/// It does not matter which of two replies to different requests comes first.
pub proof fn law_replies_in_any_order(
    replies: Map<i64, JsonView>,
    one: Option<JsonView>,
    other: Option<JsonView>,
)
    requires
        json::integer_of(json::member_of(one, "id"@)) != json::integer_of(
            json::member_of(other, "id"@),
        ),
    ensures
        with_message(with_message(replies, one), other) == with_message(
            with_message(replies, other),
            one,
        ),
{
    assert(with_message(with_message(replies, one), other) =~= with_message(
        with_message(replies, other),
        one,
    ));
}

/// A line that is not a reply changes nothing, and the probe goes on.
pub proof fn law_noise_is_ignored(replies: Map<i64, JsonView>, line: Seq<char>)
    requires
        json::integer_of(json::member_of(message_in(line), "id"@)) is None,
    ensures
        with_message(replies, message_in(line)) == replies,
        step_after_message(replies, message_in(line)) == StepView::Wait,
{
}

/// Where the limits did not come back in time the account is still known: the
/// quota is not, and a warning says so.
pub proof fn law_limits_are_optional(
    account_result: JsonView,
    account_meta: AuthMetaView,
    allowed: Seq<char>,
)
    ensures
        ({
            let snapshot = snapshot_of(account_result, None, account_meta, allowed);
            &&& !snapshot.rate_limits_available
            &&& snapshot.primary_used_percent is None
            &&& snapshot.secondary_used_percent is None
            &&& snapshot.primary_resets_at is None
            &&& snapshot.credits_has_credits is None
            &&& snapshot.credits_unlimited is None
            &&& snapshot.warnings.len() == 1
        }),
{
}

} // verus!
