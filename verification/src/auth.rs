//! Credentials: whose they are, and the name under which the pool keeps them.

use base64::Engine;
use vstd::prelude::*;
use vstd::string::*;
use vstd::utf8::*;

use crate::json;
use crate::json::{get_in, str_in, Json, JsonError, JsonView};
use crate::text;
use crate::text::{chars_of, normalize_text, stripped, text_between};

verus! {

/// Whose credentials an auth document holds.
#[derive(Debug)]
pub struct AuthMeta {
    pub email: Option<String>,
    pub account_id: Option<String>,
    pub last_refresh: Option<String>,
}

/// What an `AuthMeta` says.
#[verifier::ext_equal]
pub struct AuthMetaView {
    pub email: Option<Seq<char>>,
    pub account_id: Option<Seq<char>>,
    pub last_refresh: Option<Seq<char>>,
}

impl View for AuthMeta {
    type V = AuthMetaView;

    open spec fn view(&self) -> AuthMetaView {
        AuthMetaView {
            email: self.email.deep_view(),
            account_id: self.account_id.deep_view(),
            last_refresh: self.last_refresh.deep_view(),
        }
    }
}

impl Clone for AuthMeta {
    fn clone(&self) -> (copy: Self)
        ensures
            copy@ == self@,
    {
        AuthMeta {
            email: self.email.clone(),
            account_id: self.account_id.clone(),
            last_refresh: self.last_refresh.clone(),
        }
    }
}

/// What the URL-safe base64 engine of the crate `base64` decodes a text to.
pub uninterp spec fn base64_decoded(text: Seq<char>) -> Option<Seq<u8>>;

/// The bytes that a decoder may have given.
pub open spec fn bytes_view(bytes: Option<Vec<u8>>) -> Option<Seq<u8>> {
    match bytes {
        Some(bytes) => Some(bytes@),
        None => None,
    }
}

/// `decode` of the engine `base64::engine::general_purpose::URL_SAFE` gives the
/// bytes that a padded text in the URL-safe alphabet stands for, and an error
/// on any other text.
#[verifier::external_body]
fn decode_base64(text: &str) -> (bytes: Option<Vec<u8>>)
    ensures
        bytes_view(bytes) == base64_decoded(text@),
{
    base64::engine::general_purpose::URL_SAFE.decode(text).ok()
}

/// The part of a text between its first dot and the next one, or its end.
pub open spec fn second_segment(token: Seq<char>) -> Option<Seq<char>> {
    match token.index_of_first('.') {
        None => None,
        Some(dot) => {
            let rest = token.skip(dot + 1);
            match rest.index_of_first('.') {
                None => Some(rest),
                Some(end) => Some(rest.take(end)),
            }
        },
    }
}

/// A text followed by equals signs up to a length in bytes that four divides.
pub open spec fn padded(text: Seq<char>) -> Seq<char> {
    text + Seq::new(((4 - encode_utf8(text).len() % 4) % 4) as nat, |i: int| '=')
}

/// What the payload of a JSON web token says.
pub open spec fn jwt_payload(token: Seq<char>) -> Option<JsonView> {
    match second_segment(token) {
        None => None,
        Some(segment) => match base64_decoded(padded(segment)) {
            None => None,
            Some(bytes) => match json::json_parsed(bytes) {
                Ok(tree) => Some(tree),
                Err(_) => None,
            },
        },
    }
}

/// Where a character first stands in a text.
fn find_char(chars: &Vec<char>, from: usize, c: char) -> (at: Option<usize>)
    requires
        from <= chars@.len(),
    ensures
        at matches Some(i) ==> from <= i < chars@.len() && chars@.skip(
            from as int,
        ).index_of_first(c) == Some(i - from),
        at is None ==> chars@.skip(from as int).index_of_first(c) is None,
{
    let ghost rest = chars@.skip(from as int);
    proof {
        rest.index_of_first_ensures(c);
    }
    for i in from..chars.len()
        invariant
            from <= chars@.len(),
            rest == chars@.skip(from as int),
            forall|j: int| 0 <= j < i - from ==> rest[j] != c,
            match rest.index_of_first(c) {
                Some(k) => 0 <= k < rest.len() && rest[k] == c && forall|j: int|
                    0 <= j < k ==> rest[j] != c,
                None => !rest.contains(c),
            },
    {
        assert(rest[i - from] == chars@[i as int]);
        if chars[i] == c {
            assert(rest.contains(c));
            return Some(i);
        }
    }
    None
}

/// Takes the payload out of a token, as it stands there.
fn payload_segment(token: &str) -> (segment: Option<String>)
    ensures
        segment.deep_view() == second_segment(token@),
{
    let chars = chars_of(token);
    let length: usize = chars.len();
    assert(chars@.skip(0) =~= chars@);
    match find_char(&chars, 0, '.') {
        None => None,
        Some(dot) => {
            let from: usize = dot + 1;
            let to = match find_char(&chars, from, '.') {
                None => length,
                Some(end) => end,
            };
            proof {
                let rest = chars@.skip(from as int);
                assert(chars@.subrange(from as int, to as int) =~= rest.take(to - from));
                assert(rest.take(rest.len() as int) =~= rest);
            }
            Some(text_between(&chars, from, to))
        },
    }
}

/// Puts equals signs behind a text up to a length that four divides.
fn pad(segment: String) -> (text: String)
    ensures
        text@ == padded(segment@),
{
    let length: usize = segment.as_str().as_bytes().len();
    let missing: usize = (4 - length % 4) % 4;
    let mut text = segment;
    for i in 0..missing
        invariant
            text@ == segment@ + Seq::new(i as nat, |j: int| '='),
    {
        text.push('=');
        assert(text@ =~= segment@ + Seq::new((i + 1) as nat, |j: int| '='));
    }
    text
}

/// Decodes the payload of a JSON web token. The signature is not looked at.
pub fn decode_jwt_payload(token: &str) -> (payload: Option<Json>)
    ensures
        payload matches Some(json) ==> jwt_payload(token@) == Some(json@),
        payload is None ==> jwt_payload(token@) is None,
{
    match payload_segment(token) {
        None => None,
        Some(segment) => match decode_base64(pad(segment).as_str()) {
            None => None,
            Some(bytes) => match Json::parse(bytes.as_slice()) {
                Ok(json) => Some(json),
                Err(_) => None,
            },
        },
    }
}

/// The email that the payload of a token names, at the top or in the profile.
pub open spec fn email_in(payload: Option<JsonView>) -> Option<Seq<char>> {
    text::first_of(
        json::text_of(json::member_of(payload, "email"@)),
        json::text_of(
            json::member_of(
                json::member_of(payload, "https://api.openai.com/profile"@),
                "email"@,
            ),
        ),
    )
}

/// The account that the payload of a token names.
pub open spec fn account_id_in(payload: Option<JsonView>) -> Option<Seq<char>> {
    json::text_of(
        json::member_of(
            json::member_of(payload, "https://api.openai.com/auth"@),
            "chatgpt_account_id"@,
        ),
    )
}

/// One of the tokens in an auth document.
pub open spec fn token_in(auth: JsonView, name: Seq<char>) -> Option<Seq<char>> {
    json::text_of(json::member_of(auth.member("tokens"@), name))
}

/// What the payload of a token in an auth document says.
pub open spec fn payload_in(auth: JsonView, name: Seq<char>) -> Option<JsonView> {
    match token_in(auth, name) {
        Some(token) => jwt_payload(token),
        None => None,
    }
}

/// Whose credentials an auth document holds, given what the payloads of its
/// access token and its id token say.
pub open spec fn meta_view(
    auth: JsonView,
    access: Option<JsonView>,
    id: Option<JsonView>,
) -> AuthMetaView {
    AuthMetaView {
        email: text::normalized_in(text::first_of(email_in(id), email_in(access))),
        account_id: text::normalized_in(
            text::first_of(
                token_in(auth, "account_id"@),
                text::first_of(account_id_in(access), account_id_in(id)),
            ),
        ),
        last_refresh: json::text_of(auth.member("last_refresh"@)),
    }
}

/// Whose credentials an auth document holds.
pub open spec fn meta_of(auth: JsonView) -> AuthMetaView {
    meta_view(auth, payload_in(auth, "access_token"@), payload_in(auth, "id_token"@))
}

/// The email that the payload of a token names, at the top or in the profile.
pub fn payload_email(payload: Option<&Json>) -> (email: Option<&str>)
    ensures
        email.deep_view() == email_in(json::json_view(payload)),
{
    match str_in(get_in(payload, "email")) {
        Some(email) => Some(email),
        None => str_in(get_in(get_in(payload, "https://api.openai.com/profile"), "email")),
    }
}

/// The account that the payload of a token names.
pub fn payload_account_id(payload: Option<&Json>) -> (account_id: Option<&str>)
    ensures
        account_id.deep_view() == account_id_in(json::json_view(payload)),
{
    str_in(get_in(get_in(payload, "https://api.openai.com/auth"), "chatgpt_account_id"))
}

/// Whose credentials an auth document holds, given the payloads of its access
/// token and its id token.
pub fn meta_from_payloads(auth: &Json, access: Option<&Json>, id: Option<&Json>) -> (meta: AuthMeta)
    ensures
        meta@ == meta_view(auth@, json::json_view(access), json::json_view(id)),
{
    let email = match payload_email(id) {
        Some(email) => Some(normalize_text(email)),
        None => match payload_email(access) {
            Some(email) => Some(normalize_text(email)),
            None => None,
        },
    };
    let account_id = match str_in(get_in(auth.get("tokens"), "account_id")) {
        Some(account_id) => Some(normalize_text(account_id)),
        None => match payload_account_id(access) {
            Some(account_id) => Some(normalize_text(account_id)),
            None => match payload_account_id(id) {
                Some(account_id) => Some(normalize_text(account_id)),
                None => None,
            },
        },
    };
    let last_refresh = match str_in(auth.get("last_refresh")) {
        Some(last_refresh) => Some(last_refresh.to_owned()),
        None => None,
    };
    AuthMeta { email, account_id, last_refresh }
}

/// The payload of a token in an auth document.
fn token_payload(auth: &Json, name: &str) -> (payload: Option<Json>)
    ensures
        payload matches Some(json) ==> payload_in(auth@, name@) == Some(json@),
        payload is None ==> payload_in(auth@, name@) is None,
{
    match str_in(get_in(auth.get("tokens"), name)) {
        Some(token) => decode_jwt_payload(token),
        None => None,
    }
}

/// Whose credentials an auth document holds.
pub fn extract_meta(auth: &Json) -> (meta: AuthMeta)
    ensures
        meta@ == meta_of(auth@),
{
    let access = token_payload(auth, "access_token");
    let id = token_payload(auth, "id_token");
    meta_from_payloads(auth, access.as_ref(), id.as_ref())
}

/// The account key of credentials that name nobody.
pub open spec fn nameless() -> Seq<char> {
    "unknown-account"@
}

/// Whether a character may stand in an account key.
pub open spec fn key_char(c: char) -> bool {
    ||| 'a' <= c <= 'z'
    ||| 'A' <= c <= 'Z'
    ||| '0' <= c <= '9'
    ||| c == '.'
    ||| c == '_'
    ||| c == '@'
    ||| c == '-'
}

/// Whether a character is taken off the ends of an account key.
pub open spec fn key_margin(c: char) -> bool {
    c == '.' || c == '_'
}

/// A text with an underscore in place of each character that may not stand in
/// an account key.
pub open spec fn key_chars(raw: Seq<char>) -> Seq<char> {
    raw.map_values(
        |c: char|
            if key_char(c) {
                c
            } else {
                '_'
            },
    )
}

/// The account key made from a name.
pub open spec fn key_from(raw: Seq<char>) -> Seq<char> {
    let trimmed = text::strip(key_chars(raw), |c: char| key_margin(c));
    if trimmed.len() == 0 {
        nameless()
    } else {
        trimmed
    }
}

/// The account key of credentials.
pub open spec fn key_view(meta: AuthMetaView) -> Seq<char> {
    key_from(text::or_else(text::first_of(meta.email, meta.account_id), nameless()))
}

/// An account key holds the characters of account keys only, at least one, and
/// none from the margin at either end.
pub proof fn lemma_key_shape(raw: Seq<char>)
    ensures
        key_from(raw).len() > 0,
        forall|i: int| 0 <= i < key_from(raw).len() ==> key_char(#[trigger] key_from(raw)[i]),
        !key_margin(key_from(raw)[0]),
        !key_margin(key_from(raw).last()),
{
    let margin = |c: char| key_margin(c);
    let chars = key_chars(raw);
    let trimmed = text::strip(chars, margin);
    text::lemma_strip_shape(chars, margin);
    let (from, to) = choose|from: int, to: int|
        0 <= from <= to <= chars.len() && trimmed == #[trigger] chars.subrange(from, to);
    if trimmed.len() == 0 {
        reveal_strlit("unknown-account");
    } else {
        assert forall|i: int| 0 <= i < trimmed.len() implies key_char(#[trigger] trimmed[i]) by {
            assert(trimmed[i] == chars[from + i]);
        }
    }
}

/// The key of an account is its own key: keys are made once.
pub proof fn law_key_of_key(raw: Seq<char>)
    ensures
        key_from(key_from(raw)) == key_from(raw),
{
    let key = key_from(raw);
    lemma_key_shape(raw);
    assert(key_chars(key) =~= key);
    text::lemma_strip_fixed(key, |c: char| key_margin(c));
}

/// Whether a text holds no ASCII capital.
pub open spec fn small(s: Seq<char>) -> bool {
    forall|i: int| 0 <= i < s.len() ==> !('A' <= #[trigger] s[i] <= 'Z')
}

proof fn lemma_nameless_small()
    ensures
        small(nameless()),
{
    reveal_strlit("unknown-account");
    let name = nameless();
    assert forall|i: int| 0 <= i < name.len() implies !('A' <= #[trigger] name[i] <= 'Z') by {
        assert('a' <= name[i] <= 'z' || name[i] == '-');
    }
}

/// The key made from a name without capitals holds none either.
proof fn lemma_key_small(raw: Seq<char>)
    requires
        small(raw),
    ensures
        small(key_from(raw)),
{
    let margin = |c: char| key_margin(c);
    let chars = key_chars(raw);
    let trimmed = text::strip(chars, margin);
    lemma_nameless_small();
    text::lemma_strip_shape(chars, margin);
    let (from, to) = choose|from: int, to: int|
        0 <= from <= to <= chars.len() && trimmed == #[trigger] chars.subrange(from, to);
    if trimmed.len() > 0 {
        assert forall|i: int| 0 <= i < trimmed.len() implies !('A' <= #[trigger] trimmed[i]
            <= 'Z') by {
            assert(trimmed[i] == chars[from + i]);
            assert(!('A' <= raw[from + i] <= 'Z'));
        }
    }
}

/// The key of an account is what is left of it once it is normalized, as a
/// selector is.
pub proof fn law_key_is_normalized(auth: JsonView)
    ensures
        text::normalized(key_view(meta_of(auth))) == key_view(meta_of(auth)),
{
    let meta = meta_of(auth);
    let raw = text::or_else(text::first_of(meta.email, meta.account_id), nameless());
    let key = key_from(raw);
    lemma_nameless_small();
    lemma_normalized_small(text::first_of(
        email_in(payload_in(auth, "id_token"@)),
        email_in(payload_in(auth, "access_token"@)),
    ));
    lemma_normalized_small(text::first_of(
        token_in(auth, "account_id"@),
        text::first_of(
            account_id_in(payload_in(auth, "access_token"@)),
            account_id_in(payload_in(auth, "id_token"@)),
        ),
    ));
    assert(small(raw));
    lemma_key_small(raw);
    lemma_key_shape(raw);
    lemma_small_key_is_normalized(key);
}

/// What is normalized holds no capitals.
proof fn lemma_normalized_small(s: Option<Seq<char>>)
    ensures
        text::normalized_in(s) matches Some(t) ==> small(t),
{
}

/// A text of the characters of keys without capitals is normalized.
proof fn lemma_small_key_is_normalized(key: Seq<char>)
    requires
        small(key),
        forall|i: int| 0 <= i < key.len() ==> key_char(#[trigger] key[i]),
    ensures
        text::normalized(key) == key,
{
    let margin = |c: char| text::white(c);
    if key.len() > 0 {
        assert(key_char(key[0]) && key_char(key.last()));
    }
    text::lemma_strip_fixed(key, margin);
    assert(text::lower(key) =~= key);
}

fn is_key_margin(c: char) -> (yes: bool)
    ensures
        yes == key_margin(c),
{
    c == '.' || c == '_'
}

/// The name under which the pool keeps some credentials: the email or else the
/// account, made fit to be a file name.
pub fn account_key(meta: &AuthMeta) -> (key: String)
    ensures
        key@ == key_view(meta@),
{
    let raw: &str = match &meta.email {
        Some(email) => email.as_str(),
        None => match &meta.account_id {
            Some(account_id) => account_id.as_str(),
            None => "unknown-account",
        },
    };
    let mut chars: Vec<char> = Vec::new();
    for c in it: raw.chars()
        invariant
            it.seq() == raw@,
            chars@ == key_chars(raw@.take(it.index())),
    {
        let kept: char = if ('a' <= c && c <= 'z') || ('A' <= c && c <= 'Z') || ('0' <= c && c
            <= '9') || c == '.' || c == '_' || c == '@' || c == '-' {
            c
        } else {
            '_'
        };
        chars.push(kept);
        proof {
            assert(key_chars(raw@.take(it.index() + 1)) =~= key_chars(raw@.take(it.index())).push(
                kept,
            ));
        }
    }
    assert(raw@.take(raw@.len() as int) =~= raw@);
    let ghost margin = |c: char| key_margin(c);
    let trimmed = stripped(&chars, is_key_margin, Ghost(margin));
    if trimmed.as_str().is_empty() {
        "unknown-account".to_owned()
    } else {
        trimmed
    }
}

/// Reads an auth document.
pub fn parse_auth(contents: &str) -> (parsed: Result<Json, JsonError>)
    ensures
        parsed matches Ok(auth) ==> json::json_parsed(encode_utf8(contents@)) is Ok && auth@
            == json::json_parsed(encode_utf8(contents@))->Ok_0 && auth@.ordered() && auth@.within(
            127,
        ),
        parsed matches Err(error) ==> json::json_parsed(encode_utf8(contents@)) is Err
            && error.message@ == json::json_parsed(encode_utf8(contents@))->Err_0,
{
    Json::parse(contents.as_bytes())
}

/// What is written to the file of an auth document: the document, indented,
/// and a line feed. A document of integers, texts and truth values that is not
/// nested too deep to be read at all is read back as it was.
pub fn auth_file_bytes(auth: &Json) -> (bytes: Vec<u8>)
    requires
        auth@.ordered(),
    ensures
        bytes@ == json::json_pretty(auth@).push(10),
        auth@.integral() && auth@.within(127) ==> json::json_parsed(bytes@) == json::read_as(auth@),
{
    let mut bytes = auth.to_pretty();
    bytes.push(10);
    bytes
}

} // verus!
