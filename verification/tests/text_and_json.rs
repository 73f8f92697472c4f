use codex_pool::json::Json;
use codex_pool::text::{decimal, normalize_text};

fn parsed(text: &str) -> Json {
    match Json::parse(text.as_bytes()) {
        Ok(json) => json,
        Err(error) => panic!("{}", error.message),
    }
}

fn pretty(json: &Json) -> String {
    String::from_utf8(json.to_pretty()).unwrap()
}

#[test]
fn decimal_numbers() {
    assert_eq!(decimal(0), "0");
    assert_eq!(decimal(7), "7");
    assert_eq!(decimal(-40), "-40");
    assert_eq!(decimal(1_234_567_890), "1234567890");
    assert_eq!(decimal(i64::MAX), i64::MAX.to_string());
    assert_eq!(decimal(i64::MIN), i64::MIN.to_string());
}

#[test]
fn normalize_trims_and_lowers() {
    assert_eq!(normalize_text("  Foo@Example.COM\t\n"), "foo@example.com");
    assert_eq!(normalize_text("\u{a0}\u{2003}X Y\u{3000}"), "x y");
    assert_eq!(normalize_text("ÄÖ"), "ÄÖ");
    assert_eq!(normalize_text(" \u{200b}a "), "\u{200b}a");
    assert_eq!(normalize_text("   "), "");
}

#[test]
fn normalize_agrees_with_trim() {
    for code in 0..0x3100u32 {
        if let Some(c) = char::from_u32(code) {
            let text = format!("{c}A{c}");
            assert_eq!(normalize_text(&text), text.trim().to_ascii_lowercase());
        }
    }
}

#[test]
fn normalize_twice_is_once() {
    let once = normalize_text(" A b\u{85}");
    assert_eq!(normalize_text(&once), once);
}

#[test]
fn members_come_in_order_of_their_names() {
    let json = parsed(r#"{"b": 1, "a": [true, null, "x"], "B": {}}"#);
    assert_eq!(json.to_text(), r#"{"B":{},"a":[true,null,"x"],"b":1}"#);
    assert!(matches!(json.first(), Some(Json::Object(_))));
}

#[test]
fn members_are_found_by_name() {
    let json = parsed(r#"{"n": -5, "t": "text", "yes": true, "n": 6}"#);
    assert_eq!(json.get("n").and_then(|value| value.as_i64()), Some(6));
    assert_eq!(json.get("t").and_then(|value| value.as_str()), Some("text"));
    assert_eq!(json.get("yes").and_then(|value| value.as_bool()), Some(true));
    assert!(json.get("no").is_none());
    assert!(parsed("[1]").get("n").is_none());
    assert!(parsed("[1]").first().is_none());
    assert!(parsed("{}").first().is_none());
    assert_eq!(parsed("1").as_str(), None);
    assert_eq!(parsed("\"1\"").as_i64(), None);
    assert_eq!(parsed("\"true\"").as_bool(), None);
}

#[test]
fn numbers_outside_i64_are_kept() {
    let json = parsed("[18446744073709551615, 1.5, -9223372036854775808]");
    assert_eq!(json.to_text(), "[18446744073709551615,1.5,-9223372036854775808]");
    match json {
        Json::Array(items) => {
            assert_eq!(items[0].as_i64(), None);
            assert_eq!(items[1].as_i64(), None);
            assert_eq!(items[2].as_i64(), Some(i64::MIN));
        }
        _ => panic!("not an array"),
    }
}

#[test]
fn copies_say_the_same() {
    let json = parsed(r#"{"a":[1,{"b":null},1.5],"c":{"d":"e","f":true}}"#);
    assert_eq!(json.clone().to_text(), json.to_text());
}

#[test]
fn indented_text() {
    let json = parsed(r#"{"a":[1,{"b":null}],"c":"\n"}"#);
    assert_eq!(
        pretty(&json),
        "{\n  \"a\": [\n    1,\n    {\n      \"b\": null\n    }\n  ],\n  \"c\": \"\\n\"\n}"
    );
}

#[test]
fn what_is_written_is_read_back() {
    let text = r#"{"empty":{},"list":[0,-1,18446744073709551615],"text":"ä\u0000\"\\"}"#;
    let json = parsed(text);
    assert_eq!(parsed(&(pretty(&json) + "\n")).to_text(), json.to_text());
}

#[test]
fn what_is_not_json_is_refused() {
    match Json::parse(b"{") {
        Ok(_) => panic!("accepted"),
        Err(error) => assert_eq!(error.message, "EOF while parsing an object at line 1 column 1"),
    }
    assert!(Json::parse(b"").is_err());
    assert!(Json::parse(b"1 2").is_err());
    assert!(Json::parse(&[0xff]).is_err());
}

#[test]
fn nesting_is_limited() {
    let deep = |levels: usize| "[".repeat(levels) + &"]".repeat(levels);
    assert!(Json::parse(deep(127).as_bytes()).is_ok());
    assert!(Json::parse(deep(128).as_bytes()).is_err());
    let json = parsed(&deep(127));
    assert!(Json::parse(pretty(&json).as_bytes()).is_ok());
}
