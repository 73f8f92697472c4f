//! Whose credentials a document holds, and where the pool keeps them.

use vstd::prelude::*;
use vstd::utf8::*;

use crate::auth;
use crate::auth::AuthMetaView;
use crate::commands;
use crate::commands::Import;
use crate::config;
use crate::config::Paths;
use crate::json;
use crate::json::JsonView;
use crate::text;

verus! {

/// The text, where there is a value and it is one.
pub open spec fn as_words(value: Option<JsonView>) -> Option<Seq<char>> {
    match value {
        Some(JsonView::Text(words)) => Some(words),
        _ => None,
    }
}

/// A member of a member of a value.
pub open spec fn inner(value: JsonView, outer: Seq<char>, name: Seq<char>) -> Option<JsonView> {
    match value.member(outer) {
        Some(part) => part.member(name),
        None => None,
    }
}

/// Whether the payload of a token of a document is some tree.
pub open spec fn carries(document: JsonView, token_name: Seq<char>, payload: JsonView) -> bool {
    as_words(inner(document, "tokens"@, token_name)) matches Some(token) && auth::jwt_payload(token)
        == Some(payload)
}

/// Whether the payload of a token names an email: at the top, or else in the
/// profile.
pub open spec fn names_email(payload: JsonView, email: Seq<char>) -> bool {
    ||| as_words(payload.member("email"@)) == Some(email)
    ||| as_words(payload.member("email"@)) is None && as_words(
        inner(payload, "https://api.openai.com/profile"@, "email"@),
    ) == Some(email)
}

/// Whether the payload of a token names an account.
pub open spec fn names_account(payload: JsonView, account: Seq<char>) -> bool {
    as_words(inner(payload, "https://api.openai.com/auth"@, "chatgpt_account_id"@)) == Some(account)
}

/// Whether a token of a document names an email.
pub open spec fn token_names_email(
    document: JsonView,
    token_name: Seq<char>,
    email: Seq<char>,
) -> bool {
    exists|payload: JsonView| #[trigger]
        carries(document, token_name, payload) && names_email(payload, email)
}

/// Whether a token of a document names an account.
pub open spec fn token_names_account(
    document: JsonView,
    token_name: Seq<char>,
    account: Seq<char>,
) -> bool {
    exists|payload: JsonView| #[trigger]
        carries(document, token_name, payload) && names_account(payload, account)
}

/// The email that the id token names is that of the credentials, normalized,
/// whatever else the document says; and their key is made from it.
pub proof fn law_email_of_the_id_token(document: JsonView, email: Seq<char>)
    requires
        token_names_email(document, "id_token"@, email),
    ensures
        auth::meta_of(document).email == Some(text::normalized(email)),
        auth::key_view(auth::meta_of(document)) == auth::key_from(text::normalized(email)),
{
    let payload = choose|payload: JsonView| #[trigger]
        carries(document, "id_token"@, payload) && names_email(payload, email);
    assert(auth::payload_in(document, "id_token"@) == Some(payload));
}

/// Where the id token names no email, the one that the access token names is
/// that of the credentials, normalized, whatever else the document says; and
/// their key is made from it.
pub proof fn law_email_of_the_access_token(document: JsonView, email: Seq<char>)
    requires
        forall|other: Seq<char>| !token_names_email(document, "id_token"@, other),
        token_names_email(document, "access_token"@, email),
    ensures
        auth::meta_of(document).email == Some(text::normalized(email)),
        auth::key_view(auth::meta_of(document)) == auth::key_from(text::normalized(email)),
{
    let payload = choose|payload: JsonView| #[trigger]
        carries(document, "access_token"@, payload) && names_email(payload, email);
    assert(auth::payload_in(document, "access_token"@) == Some(payload));
    lemma_no_email(document, "id_token"@);
}

/// Where neither token names an email the credentials have none.
pub proof fn law_no_email(document: JsonView)
    requires
        forall|other: Seq<char>| !token_names_email(document, "id_token"@, other),
        forall|other: Seq<char>| !token_names_email(document, "access_token"@, other),
    ensures
        auth::meta_of(document).email is None,
{
    lemma_no_email(document, "id_token"@);
    lemma_no_email(document, "access_token"@);
}

proof fn lemma_no_email(document: JsonView, token_name: Seq<char>)
    requires
        forall|other: Seq<char>| !token_names_email(document, token_name, other),
    ensures
        auth::email_in(auth::payload_in(document, token_name)) is None,
{
    if let Some(payload) = auth::payload_in(document, token_name) {
        assert(carries(document, token_name, payload));
        if let Some(email) = auth::email_in(Some(payload)) {
            assert(names_email(payload, email));
            assert(token_names_email(document, token_name, email));
        }
    }
}

proof fn lemma_no_account(document: JsonView, token_name: Seq<char>)
    requires
        forall|other: Seq<char>| !token_names_account(document, token_name, other),
    ensures
        auth::account_id_in(auth::payload_in(document, token_name)) is None,
{
    if let Some(payload) = auth::payload_in(document, token_name) {
        assert(carries(document, token_name, payload));
        if let Some(account) = auth::account_id_in(Some(payload)) {
            assert(names_account(payload, account));
            assert(token_names_account(document, token_name, account));
        }
    }
}

/// The account of the credentials is the one that the document names beside the
/// tokens, normalized; else that of the access token; else that of the id token.
pub proof fn law_account_of_the_credentials(document: JsonView, account: Seq<char>)
    ensures
        as_words(inner(document, "tokens"@, "account_id"@)) == Some(account) ==> auth::meta_of(
            document,
        ).account_id == Some(text::normalized(account)),
        as_words(inner(document, "tokens"@, "account_id"@)) is None && token_names_account(
            document,
            "access_token"@,
            account,
        ) ==> auth::meta_of(document).account_id == Some(text::normalized(account)),
        as_words(inner(document, "tokens"@, "account_id"@)) is None && (forall|other: Seq<char>|
            !token_names_account(document, "access_token"@, other)) && token_names_account(
            document,
            "id_token"@,
            account,
        ) ==> auth::meta_of(document).account_id == Some(text::normalized(account)),
        as_words(inner(document, "tokens"@, "account_id"@)) is None && (forall|other: Seq<char>|
            !token_names_account(document, "access_token"@, other)) && (forall|other: Seq<char>|
            !token_names_account(document, "id_token"@, other)) ==> auth::meta_of(
            document,
        ).account_id is None,
{
    if token_names_account(document, "access_token"@, account) {
        let payload = choose|payload: JsonView| #[trigger]
            carries(document, "access_token"@, payload) && names_account(payload, account);
        assert(auth::payload_in(document, "access_token"@) == Some(payload));
    }
    if forall|other: Seq<char>| !token_names_account(document, "access_token"@, other) {
        lemma_no_account(document, "access_token"@);
    }
    if token_names_account(document, "id_token"@, account) {
        let payload = choose|payload: JsonView| #[trigger]
            carries(document, "id_token"@, payload) && names_account(payload, account);
        assert(auth::payload_in(document, "id_token"@) == Some(payload));
    }
    if forall|other: Seq<char>| !token_names_account(document, "id_token"@, other) {
        lemma_no_account(document, "id_token"@);
    }
}

/// The last refresh of the credentials is what the document says of it, letter
/// for letter.
pub proof fn law_last_refresh_of_the_credentials(document: JsonView)
    ensures
        auth::meta_of(document).last_refresh == as_words(document.member("last_refresh"@)),
{
}

/// The key is made from the email, where there is one; else from the account;
/// else the account is unknown.
pub proof fn law_key_by_email_first(meta: AuthMetaView)
    ensures
        meta.email matches Some(email) ==> auth::key_view(meta) == auth::key_from(email),
        meta.email is None ==> (meta.account_id matches Some(account) ==> auth::key_view(meta)
            == auth::key_from(account)),
        meta.email is None && meta.account_id is None ==> auth::key_view(meta)
            == "unknown-account"@,
{
    if meta.email is None && meta.account_id is None {
        reveal_strlit("unknown-account");
        let name = "unknown-account"@;
        assert forall|i: int| 0 <= i < name.len() implies auth::key_char(#[trigger] name[i]) by {
            assert('a' <= name[i] <= 'z' || name[i] == '-');
        }
        assert(auth::key_chars(name) =~= name);
        text::lemma_strip_fixed(name, |c: char| auth::key_margin(c));
    }
}

/// Whether a character may stand in a file name that the pool makes.
pub open spec fn is_allowed(c: char) -> bool {
    ||| 'a' <= c <= 'z'
    ||| 'A' <= c <= 'Z'
    ||| '0' <= c <= '9'
    ||| c == '.'
    ||| c == '_'
    ||| c == '@'
    ||| c == '-'
}

/// Whether a key may begin and end with a character.
pub open spec fn is_firm(c: char) -> bool {
    is_allowed(c) && c != '.' && c != '_'
}

/// A name that begins and ends with a letter, a digit, `@` or `-` keeps its
/// length and every character that may stand in a key; for each other one there
/// is an underscore.
pub proof fn law_key_keeps_what_is_allowed(name: Seq<char>)
    requires
        name.len() > 0,
        is_firm(name[0]),
        is_firm(name.last()),
    ensures
        auth::key_from(name).len() == name.len(),
        forall|i: int|
            0 <= i < name.len() && is_allowed(name[i]) ==> #[trigger] auth::key_from(name)[i]
                == name[i],
        forall|i: int|
            0 <= i < name.len() && !is_allowed(name[i]) ==> #[trigger] auth::key_from(name)[i]
                == '_',
{
    let chars = auth::key_chars(name);
    assert(chars.len() == name.len());
    assert(chars[0] == name[0]);
    assert(chars.last() == name.last());
    text::lemma_strip_fixed(chars, |c: char| auth::key_margin(c));
}

/// Anything else at the ends of a name is dropped from its key.
pub proof fn law_key_drops_other_ends(name: Seq<char>, c: char)
    requires
        !is_firm(c),
    ensures
        auth::key_from(seq![c] + name) == auth::key_from(name),
        auth::key_from(name.push(c)) == auth::key_from(name),
        auth::key_from(Seq::<char>::empty()) == "unknown-account"@,
{
    let margin = |c: char| auth::key_margin(c);
    let kept = if is_allowed(c) {
        c
    } else {
        '_'
    };
    assert(margin(kept));
    let chars = auth::key_chars(name);
    assert(auth::key_chars(seq![c] + name) =~= seq![kept] + chars);
    assert((seq![kept] + chars).drop_first() =~= chars);
    assert(auth::key_chars(name.push(c)) =~= chars.push(kept));
    text::lemma_strip_push(chars, kept, margin);
    assert(auth::key_chars(Seq::<char>::empty()) =~= Seq::<char>::empty());
}

/// The payload of a token stands between its first two dots, or behind the only
/// one.
pub proof fn law_payload_between_the_dots(header: Seq<char>, body: Seq<char>, rest: Seq<char>)
    requires
        !header.contains('.'),
        !body.contains('.'),
    ensures
        auth::second_segment(header + seq!['.'] + body) == Some(body),
        auth::second_segment(header + seq!['.'] + body + seq!['.'] + rest) == Some(body),
        auth::second_segment(header) is None,
{
    header.index_of_first_ensures('.');
    let short = header + seq!['.'] + body;
    lemma_first_dot(header, body);
    assert(short =~= header + (seq!['.'] + body));
    assert(short.skip(header.len() as int + 1) =~= body);
    body.index_of_first_ensures('.');
    let tail = body + seq!['.'] + rest;
    let long = header + seq!['.'] + body + seq!['.'] + rest;
    assert(long =~= header + seq!['.'] + tail);
    lemma_first_dot(header, tail);
    assert(long.skip(header.len() as int + 1) =~= tail);
    lemma_first_dot(body, rest);
    assert(tail.take(body.len() as int) =~= body);
}

proof fn lemma_first_dot(start: Seq<char>, rest: Seq<char>)
    requires
        !start.contains('.'),
    ensures
        (start + seq!['.'] + rest).index_of_first('.') == Some(start.len() as int),
{
    let whole = start + seq!['.'] + rest;
    let at = start.len() as int;
    whole.index_of_first_ensures('.');
    assert(whole[at] == '.');
    assert(whole.contains('.'));
    let found = whole.index_of_first('.')->0;
    if found < at {
        assert(start[found] == '.');
    }
}

/// Where the payload of a token decodes to bytes, and those read as a document,
/// that document is what the token carries; else it carries nothing.
pub proof fn law_payload_of_a_token(header: Seq<char>, body: Seq<char>, rest: Seq<char>)
    requires
        !header.contains('.'),
        !body.contains('.'),
    ensures
        ({
            let token = header + seq!['.'] + body + seq!['.'] + rest;
            match auth::base64_decoded(auth::padded(body)) {
                Some(bytes) => match json::json_parsed(bytes) {
                    Ok(tree) => auth::jwt_payload(token) == Some(tree),
                    Err(_) => auth::jwt_payload(token) is None,
                },
                None => auth::jwt_payload(token) is None,
            }
        }),
        auth::jwt_payload(header + seq!['.'] + body) == auth::jwt_payload(
            header + seq!['.'] + body + seq!['.'] + rest,
        ),
        auth::jwt_payload(header) is None,
{
    law_payload_between_the_dots(header, body, rest);
}

/// The payload of a token is filled up with at most three equals signs, to a
/// length that four divides.
pub proof fn law_padding(body: Seq<char>)
    ensures
        ({
            let added = auth::padded(body).len() - body.len();
            &&& 0 <= added <= 3
            &&& (encode_utf8(body).len() + added) % 4 == 0
            &&& auth::padded(body).take(body.len() as int) == body
            &&& forall|i: int|
                body.len() <= i < auth::padded(body).len() ==> #[trigger] auth::padded(body)[i]
                    == '='
        }),
{
    assert(auth::padded(body).take(body.len() as int) =~= body);
}

/// Credentials come into the pool as those of the account that they belong to:
/// under its key, in a file of its own below the directory of the accounts.
pub proof fn law_import_is_kept_by_account(paths: Paths, document: JsonView, import: Import)
    requires
        commands::imports(paths, document, import),
    ensures
        import.meta@ == auth::meta_of(document),
        import.account_key@ == auth::key_view(import.meta@),
        config::path_components(import.auth_file) == config::path_components(paths.accounts_dir)
            + seq![import.account_key@, "auth.json"@],
        import.account_dir == config::joined_path(paths.accounts_dir, import.account_key@),
        import.auth_file == config::joined_path(import.account_dir, "auth.json"@),
        import.auth_path@ == config::shown_path(import.auth_file),
        import.contents@ == json::json_pretty(document).push(10),
{
    assert(config::path_components(import.auth_file) =~= config::path_components(
        paths.accounts_dir,
    ) + seq![import.account_key@, "auth.json"@]);
}

/// What is stored of credentials is what they say of the account, and where they
/// are kept.
pub proof fn law_import_stores_whose_they_are(import: Import)
    ensures
        commands::import_update(import).account_key == import.account_key@,
        commands::import_update(import).email == import.meta@.email,
        commands::import_update(import).account_id == import.meta@.account_id,
        commands::import_update(import).auth_path == import.auth_path@,
        commands::import_update(import).last_refresh == import.meta@.last_refresh,
{
}

/// What is said of credentials names their key, their email or a dash, and their
/// file.
pub proof fn law_import_is_told(import: Import)
    ensures
        import.meta@.email matches Some(email) ==> commands::import_text(import)
            == "stored account="@ + import.account_key@ + " email="@ + email + " auth="@
            + import.auth_path@,
        import.meta@.email is None ==> commands::import_text(import) == "stored account="@
            + import.account_key@ + " email="@ + "-"@ + " auth="@ + import.auth_path@,
{
}

/// The file in which another one is prepared bears its name, after a dot, and the
/// number of the process: it is never the file itself.
pub proof fn law_prepared_beside(name: Seq<char>, process: nat)
    ensures
        config::temp_name(Some(name), process) == "."@ + name + ".tmp."@ + text::digits(process),
        config::temp_name(None, process) == "."@ + "file"@ + ".tmp."@ + text::digits(process),
        config::temp_name(Some(name), process) != name,
{
    reveal_strlit(".");
    assert(config::temp_name(Some(name), process).len() > name.len());
}

/// A file is prepared in the directory in which it stands.
pub proof fn law_prepared_in_the_same_directory(path: std::path::PathBuf, process: nat)
    ensures
        config::path_parent(path) matches Some(parent) ==> config::replacement(path, process)
            matches Some(plan) && plan.parent == parent && plan.temp == config::joined_path(
            parent,
            config::temp_name(config::path_file_name(path), process),
        ),
        config::path_parent(path) is None ==> config::replacement(path, process) is None,
{
}

/// Where an account is kept: its file and its lock bear its key.
pub proof fn law_files_bear_the_key(base: Seq<Seq<char>>, key: Seq<char>)
    ensures
        config::auth_file_components(base, key) == base + seq![key, "auth.json"@],
        config::lock_file_components(base, key) == base + seq![key + ".lock"@],
{
    assert(config::auth_file_components(base, key) =~= base + seq![key, "auth.json"@]);
    assert(config::lock_file_components(base, key) =~= base + seq![key + ".lock"@]);
}

} // verus!
