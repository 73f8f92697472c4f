use base64::Engine;
use codex_pool::auth::{
    account_key, auth_file_bytes, decode_jwt_payload, extract_meta, meta_from_payloads, parse_auth,
    payload_account_id, payload_email, AuthMeta,
};
use codex_pool::json::Json;
use codex_pool::text::normalize_text;

fn parsed(text: &str) -> Json {
    match parse_auth(text) {
        Ok(json) => json,
        Err(error) => panic!("{}", error.message),
    }
}

fn token(payload: &str) -> String {
    let engine = base64::engine::general_purpose::URL_SAFE_NO_PAD;
    format!("{}.{}.signature", engine.encode("{}"), engine.encode(payload))
}

fn key_of(email: Option<&str>, account_id: Option<&str>) -> String {
    account_key(&AuthMeta {
        email: email.map(|text| text.to_string()),
        account_id: account_id.map(|text| text.to_string()),
        last_refresh: None,
    })
}

#[test]
fn payload_of_a_token() {
    for payload in [r#"{"a":1}"#, r#"{"a":12}"#, r#"{"a":123}"#, r#"{"a":"???>>>"}"#] {
        let json = decode_jwt_payload(&token(payload)).unwrap();
        assert_eq!(json.to_text(), payload);
    }
}

#[test]
fn payload_without_a_signature() {
    let engine = base64::engine::general_purpose::URL_SAFE_NO_PAD;
    let json = decode_jwt_payload(&format!(".{}", engine.encode("[7]"))).unwrap();
    assert_eq!(json.to_text(), "[7]");
}

#[test]
fn tokens_without_a_payload() {
    assert!(decode_jwt_payload("").is_none());
    assert!(decode_jwt_payload("e30").is_none());
    assert!(decode_jwt_payload("a..b").is_none());
    assert!(decode_jwt_payload("a.!!!!.b").is_none());
    assert!(decode_jwt_payload("a.e3.b").is_none());
    assert!(decode_jwt_payload("a.ä.b").is_none());
}

#[test]
fn email_at_the_top_or_in_the_profile() {
    let top = parsed(r#"{"email":"a","https://api.openai.com/profile":{"email":"b"}}"#);
    assert_eq!(payload_email(Some(&top)), Some("a"));
    let profile = parsed(r#"{"email":1,"https://api.openai.com/profile":{"email":"b"}}"#);
    assert_eq!(payload_email(Some(&profile)), Some("b"));
    assert_eq!(payload_email(Some(&parsed("{}"))), None);
    assert_eq!(payload_email(None), None);
}

#[test]
fn account_in_a_payload() {
    let payload = parsed(r#"{"https://api.openai.com/auth":{"chatgpt_account_id":"Acc"}}"#);
    assert_eq!(payload_account_id(Some(&payload)), Some("Acc"));
    assert_eq!(payload_account_id(Some(&parsed("{}"))), None);
}

#[test]
fn id_token_names_the_email_first() {
    let auth = parsed(&format!(
        r#"{{"tokens":{{"access_token":"{}","id_token":"{}"}},"last_refresh":"2025-01-02T03:04:05Z"}}"#,
        token(r#"{"email":"access@x.y"}"#),
        token(r#"{"email":" ID@x.y "}"#),
    ));
    let meta = extract_meta(&auth);
    assert_eq!(meta.email.as_deref(), Some("id@x.y"));
    assert_eq!(meta.account_id, None);
    assert_eq!(meta.last_refresh.as_deref(), Some("2025-01-02T03:04:05Z"));
}

#[test]
fn access_token_names_the_account_first() {
    let id = r#"{"https://api.openai.com/auth":{"chatgpt_account_id":"from-id"}}"#;
    let access = r#"{"https://api.openai.com/auth":{"chatgpt_account_id":"From-Access"}}"#;
    let auth = parsed(&format!(
        r#"{{"tokens":{{"access_token":"{}","id_token":"{}"}}}}"#,
        token(access),
        token(id),
    ));
    assert_eq!(extract_meta(&auth).account_id.as_deref(), Some("from-access"));
    let only_id = parsed(&format!(r#"{{"tokens":{{"id_token":"{}"}}}}"#, token(id)));
    assert_eq!(extract_meta(&only_id).account_id.as_deref(), Some("from-id"));
}

#[test]
fn the_document_itself_names_the_account_first() {
    let auth = parsed(r#"{"tokens":{"account_id":" ACC-1 "}}"#);
    let payload = parsed(r#"{"https://api.openai.com/auth":{"chatgpt_account_id":"other"}}"#);
    let meta = meta_from_payloads(&auth, Some(&payload), None);
    assert_eq!(meta.account_id.as_deref(), Some("acc-1"));
    assert_eq!(meta.email, None);
}

#[test]
fn documents_without_tokens() {
    let meta = extract_meta(&parsed(r#"{"tokens":"no object"}"#));
    assert!(meta.email.is_none() && meta.account_id.is_none() && meta.last_refresh.is_none());
    assert_eq!(account_key(&meta), "unknown-account");
}

#[test]
fn keys_are_fit_to_be_file_names() {
    assert_eq!(key_of(Some("me@example.com"), Some("id")), "me@example.com");
    assert_eq!(key_of(Some("a b/c+d"), None), "a_b_c_d");
    assert_eq!(key_of(None, Some("acc-1")), "acc-1");
    assert_eq!(key_of(Some("../../up/there"), None), "up_there");
    assert_eq!(key_of(Some("._."), None), "unknown-account");
    assert_eq!(key_of(Some(""), Some("id")), "unknown-account");
    assert_eq!(key_of(Some("ü@x"), None), "@x");
    assert_eq!(key_of(None, None), "unknown-account");
}

#[test]
fn the_key_of_a_key_is_the_key() {
    let key = key_of(Some(".a b.c_"), None);
    assert_eq!(key, "a_b.c");
    assert_eq!(key_of(Some(&key), None), key);
}

#[test]
fn keys_are_normalized() {
    let auth = parsed(r#"{"tokens":{"account_id":" Ab C.D_ "}}"#);
    let key = account_key(&extract_meta(&auth));
    assert_eq!(key, "ab_c.d");
    assert_eq!(normalize_text(&key), key);
}

#[test]
fn auth_documents_are_written_indented_with_a_line_feed() {
    let auth = parsed(r#"{"tokens":{"a":"b"},"n":1}"#);
    let bytes = auth_file_bytes(&auth);
    assert_eq!(
        String::from_utf8(bytes).unwrap(),
        "{\n  \"n\": 1,\n  \"tokens\": {\n    \"a\": \"b\"\n  }\n}\n"
    );
}

#[test]
fn auth_documents_are_read_back() {
    let auth = parsed(r#"{"tokens":{"a":"b"},"list":[1,true,null]}"#);
    let written = String::from_utf8(auth_file_bytes(&auth)).unwrap();
    assert_eq!(parsed(&written).to_text(), auth.to_text());
}

#[test]
fn broken_auth_documents_are_refused() {
    match parse_auth("nonsense") {
        Ok(_) => panic!("accepted"),
        Err(error) => assert_eq!(error.message, "expected ident at line 1 column 2"),
    }
}
