use codex_pool::auth::AuthMeta;
use codex_pool::json::Json;
use codex_pool::probe::{
    build_probe_messages, parse_snapshot, primary_snapshot, probe_failure, snapshot_from_replies,
    ProbeEvent, ProbeFailureKind, ProbeFault, ProbeSession, ProbeStep, ServerState,
};

fn parsed(text: &str) -> Json {
    match Json::parse(text.as_bytes()) {
        Ok(json) => json,
        Err(error) => panic!("{}", error.message),
    }
}

fn nobody() -> AuthMeta {
    AuthMeta { email: None, account_id: None, last_refresh: None }
}

#[test]
fn requests_to_the_server() {
    assert_eq!(
        build_probe_messages(),
        vec![
            r#"{"id":1,"jsonrpc":"2.0","method":"initialize","params":{"capabilities":null,"clientInfo":{"name":"codex-pool-rs","version":"0.1"}}}"#,
            r#"{"id":2,"jsonrpc":"2.0","method":"account/read","params":{"refreshToken":true}}"#,
            r#"{"id":3,"jsonrpc":"2.0","method":"account/rateLimits/read","params":null}"#,
        ]
    );
}

#[test]
fn requests_stand_on_one_line_each() {
    for message in build_probe_messages() {
        assert!(!message.contains('\n'));
    }
    assert_eq!(parsed("{\"a\":\n\"x\\ny\"}").to_text(), r#"{"a":"x\ny"}"#);
}

#[test]
fn failures_and_their_words() {
    let words = |fault: ProbeFault| {
        let failure = probe_failure(fault);
        (failure.kind.as_str(), failure.message)
    };
    let told = |kind: &'static str, message: &str| (kind, message.to_string());
    assert_eq!(
        words(ProbeFault::ReadAuth("x")),
        told("auth_file_read", "read auth file failed: x")
    );
    assert_eq!(
        words(ProbeFault::CreateTempDir("x")),
        told("auth_file_read", "create temp dir failed: x")
    );
    assert_eq!(
        words(ProbeFault::WriteTempAuth("x")),
        told("auth_file_read", "write temp auth file failed: x")
    );
    assert_eq!(
        words(ProbeFault::Spawn("x")),
        told("app_server_spawn", "spawn codex app-server failed: x")
    );
    assert_eq!(words(ProbeFault::NoStdin), told("app_server_spawn", "capture stdin failed"));
    assert_eq!(
        words(ProbeFault::WriteRequest("x")),
        told("app_server_spawn", "write app-server request failed: x")
    );
    assert_eq!(words(ProbeFault::NoStdout), told("app_server_spawn", "capture stdout failed"));
    assert_eq!(
        words(ProbeFault::Poll("x")),
        told("app_server_exit", "poll codex app-server failed: x")
    );
    assert_eq!(
        words(ProbeFault::Exited("x")),
        told("app_server_exit", "codex app-server exited with x")
    );
    assert_eq!(ProbeFailureKind::AccountReadTimeout.as_str(), "account_read_timeout");
}

#[test]
fn limits_of_codex_come_first() {
    let text = |json: &str| primary_snapshot(&parsed(json)).map(|quota| quota.to_text());
    assert_eq!(
        text(r#"{"rateLimitsByLimitId":{"a":1,"codex":2},"rateLimits":3}"#).as_deref(),
        Some("2")
    );
    assert_eq!(
        text(r#"{"rateLimitsByLimitId":{"b":1,"a":4},"rateLimits":3}"#).as_deref(),
        Some("4")
    );
    assert_eq!(text(r#"{"rateLimitsByLimitId":{},"rateLimits":3}"#).as_deref(), Some("3"));
    assert_eq!(text(r#"{"rateLimitsByLimitId":[7],"rateLimits":3}"#).as_deref(), Some("3"));
    assert_eq!(text("{}"), None);
}

#[test]
fn what_replies_say() {
    let account = parsed(r#"{"account":{"planType":"plus"}}"#);
    let limits = parsed(
        r#"{"rateLimits":{"planType":"pro","primary":{"usedPercent":12,"resetsAt":345},
            "secondary":{"usedPercent":67},"credits":{"hasCredits":true,"unlimited":false}}}"#,
    );
    let snapshot = snapshot_from_replies(&account, Some(&limits), nobody(), "1s");
    assert_eq!(snapshot.plan.as_deref(), Some("plus"));
    assert_eq!(snapshot.primary_used_percent, Some(12));
    assert_eq!(snapshot.secondary_used_percent, Some(67));
    assert_eq!(snapshot.primary_resets_at, Some(345));
    assert_eq!(snapshot.credits_has_credits, Some(true));
    assert_eq!(snapshot.credits_unlimited, Some(false));
    assert!(snapshot.rate_limits_available);
    assert!(snapshot.warnings.is_empty());
    let snapshot = snapshot_from_replies(&parsed("{}"), Some(&limits), nobody(), "1s");
    assert_eq!(snapshot.plan.as_deref(), Some("pro"));
}

#[test]
fn odd_replies_say_nothing() {
    let account = parsed(r#"{"account":{"planType":5}}"#);
    let limits = parsed(r#"{"rateLimits":{"primary":{"usedPercent":1.5,"resetsAt":"soon"},"credits":[]}}"#);
    let snapshot = snapshot_from_replies(&account, Some(&limits), nobody(), "1s");
    assert_eq!(snapshot.plan, None);
    assert_eq!(snapshot.primary_used_percent, None);
    assert_eq!(snapshot.primary_resets_at, None);
    assert_eq!(snapshot.credits_has_credits, None);
    assert!(snapshot.rate_limits_available);
}

#[test]
fn missing_limits_are_warned_of() {
    let account = parsed(r#"{"account":{"planType":"plus"}}"#);
    let snapshot = parse_snapshot(&account, None, nobody(), 12);
    assert_eq!(
        snapshot.warnings,
        vec!["account/rateLimits/read did not return within 12s"]
    );
    assert!(!snapshot.rate_limits_available);
    assert_eq!(snapshot.primary_used_percent, None);
    assert_eq!(snapshot.plan.as_deref(), Some("plus"));
}

#[test]
fn a_probe_is_over_once_both_replies_are_there() {
    for lines in [[2, 3], [3, 2]] {
        let mut session = ProbeSession::new();
        let line = |id: i64| format!(r#"{{"id":{id},"result":{{"from":{id}}}}}"#);
        assert!(matches!(session.step(ProbeEvent::Line(&line(1))), ProbeStep::Wait));
        assert!(matches!(session.step(ProbeEvent::Line("noise")), ProbeStep::Wait));
        assert!(matches!(session.step(ProbeEvent::Line(r#"{"id":"2"}"#)), ProbeStep::Wait));
        assert!(matches!(session.step(ProbeEvent::Line(&line(lines[0]))), ProbeStep::Wait));
        assert!(matches!(session.step(ProbeEvent::Line("{}")), ProbeStep::Wait));
        assert!(matches!(session.step(ProbeEvent::Line(&line(lines[1]))), ProbeStep::Finish));
        assert_eq!(session.responses.len(), 3);
    }
}

#[test]
fn replies_are_taken_as_they_come() {
    let mut session = ProbeSession::new();
    assert!(matches!(session.accept(None), ProbeStep::Wait));
    let step = session.accept(Some(parsed(r#"{"id":2,"result":1}"#)));
    assert!(matches!(step, ProbeStep::Wait));
    let step = session.accept(Some(parsed(r#"{"id":2,"result":2}"#)));
    assert!(matches!(step, ProbeStep::Wait));
    assert_eq!(session.responses[&2].to_text(), r#"{"id":2,"result":2}"#);
    assert!(matches!(session.accept(Some(parsed(r#"{"id":3}"#))), ProbeStep::Finish));
}

#[test]
fn what_ends_a_probe_early() {
    let mut session = ProbeSession::new();
    let silence = ProbeEvent::Silence;
    assert!(matches!(session.step(silence(ServerState::Running)), ProbeStep::Wait));
    assert!(matches!(session.step(silence(ServerState::ExitedWell)), ProbeStep::Wait));
    assert!(matches!(session.step(ProbeEvent::ReadFailed), ProbeStep::Finish));
    assert!(matches!(session.step(ProbeEvent::Closed), ProbeStep::Finish));
    assert!(matches!(session.step(ProbeEvent::TimeUp), ProbeStep::Finish));
    match session.step(silence(ServerState::ExitedBadly("exit status: 1"))) {
        ProbeStep::Fail(failure) => {
            assert_eq!(failure.kind, ProbeFailureKind::AppServerExit);
            assert_eq!(failure.message, "codex app-server exited with exit status: 1");
        }
        _ => panic!("goes on"),
    }
    match session.step(silence(ServerState::Unknown("no child"))) {
        ProbeStep::Fail(failure) => {
            assert_eq!(failure.message, "poll codex app-server failed: no child")
        }
        _ => panic!("goes on"),
    }
}

#[test]
fn a_probe_without_the_account_fails() {
    let mut session = ProbeSession::new();
    session.step(ProbeEvent::Line(r#"{"id":2,"error":{}}"#));
    match session.finish(parsed("{}"), None, 12) {
        Ok(_) => panic!("accepted"),
        Err(failure) => {
            assert_eq!(failure.kind, ProbeFailureKind::AccountReadTimeout);
            assert_eq!(failure.message, "account/read did not return within 12s");
        }
    }
}

#[test]
fn a_probe_brings_back_what_the_server_left() {
    let mut session = ProbeSession::new();
    session.step(ProbeEvent::Line(r#"{"id":2,"result":{"account":{"planType":"plus"}}}"#));
    let old = || parsed(r#"{"last_refresh":"old"}"#);
    let output = match session.finish(old(), Some(parsed(r#"{"last_refresh":"new"}"#)), 3) {
        Ok(output) => output,
        Err(failure) => panic!("{}", failure.message),
    };
    assert_eq!(output.refreshed_auth.to_text(), r#"{"last_refresh":"new"}"#);
    assert_eq!(output.snapshot.account_meta.last_refresh.as_deref(), Some("new"));
    assert_eq!(output.snapshot.plan.as_deref(), Some("plus"));
    let copy = output.clone();
    assert_eq!(copy.refreshed_auth.to_text(), output.refreshed_auth.to_text());
    assert_eq!(copy.snapshot.warnings, output.snapshot.warnings);
    let output = match session.conclude(old(), None, "a while") {
        Ok(output) => output,
        Err(failure) => panic!("{}", failure.message),
    };
    assert_eq!(output.refreshed_auth.to_text(), r#"{"last_refresh":"old"}"#);
    assert_eq!(
        output.snapshot.warnings,
        vec!["account/rateLimits/read did not return within a while"]
    );
}
