use vstd::prelude::*;
use crate::json::{Json, parsed_json, parse_json, text_field};
use crate::text::{trim_spec, find_spec, opt_text, chars_of, find_chars, trim};

verus! {

/// The member name under which the credentials hold the token.
pub open spec fn token_key() -> Seq<char> {
    "accessToken"@
}

/// The member name with its quotes, as the plain-text search looks for it.
pub open spec fn quoted_token_key() -> Seq<char> {
    "\"accessToken\""@
}

/// The token of the first member of `es` whose value has a string `accessToken`.
pub open spec fn nested_token(es: Seq<(String, Json)>) -> Option<Seq<char>>
    decreases es.len(),
{
    if es.len() == 0 {
        None
    } else {
        match text_field(es[0].1, token_key()) {
            Some(t) => Some(t),
            None => nested_token(es.drop_first()),
        }
    }
}

/// The token that a parsed credentials document holds: its own string
/// `accessToken`, else that of the first of its members that has one.
pub open spec fn json_token(doc: Json) -> Option<Seq<char>> {
    match text_field(doc, token_key()) {
        Some(t) => Some(t),
        None => match doc {
            Json::Object(es) => nested_token(es@),
            _ => None,
        },
    }
}

/// The token found in `b` as text: after the first `"accessToken"`, the first
/// `:`, then, past white space, a string in double quotes up to the next quote.
pub open spec fn text_token(b: Seq<char>) -> Option<Seq<char>> {
    match find_spec(b, quoted_token_key()) {
        None => None,
        Some(start) => {
            let rest = b.skip(start + quoted_token_key().len());
            match find_spec(rest, seq![':']) {
                None => None,
                Some(colon) => {
                    let after = trim_spec(rest.skip(colon + 1));
                    if after.len() > 0 && after[0] == '"' {
                        let inner = after.skip(1);
                        match find_spec(inner, seq!['"']) {
                            Some(end) => Some(inner.take(end)),
                            None => None,
                        }
                    } else {
                        None
                    }
                },
            }
        },
    }
}

/// The access token in a credentials blob: the blob is trimmed; an empty blob
/// has none; a blob that parses as JSON gives the token of the document if it
/// has one; otherwise the token is searched for in the text.
pub open spec fn access_token(blob: Seq<char>) -> Option<Seq<char>> {
    let b = trim_spec(blob);
    if b.len() == 0 {
        None
    } else {
        match parsed_json(b) {
            Some(doc) => match json_token(doc) {
                Some(t) => Some(t),
                None => text_token(b),
            },
            None => text_token(b),
        }
    }
}

/// The token that a parsed credentials document holds.
pub fn json_access_token(doc: &Json) -> (r: Option<String>)
    ensures
        opt_text(r) == json_token(*doc),
{
    let owned_key = String::from_str("accessToken");
    let key = &owned_key;
    if let Some(t) = doc.text_field(key) {
        return Some(t.clone());
    }
    if let Some(es) = doc.as_object() {
        let n: usize = es.len();
        assert(es@.skip(0) =~= es@);
        for i in 0..n
            invariant
                n == es@.len(),
                key@ == token_key(),
                *doc == Json::Object(*es),
                text_field(*doc, token_key()) is None,
                nested_token(es@) == nested_token(es@.skip(i as int)),
        {
            assert(es@.skip(i as int).drop_first() =~= es@.skip(i + 1));
            assert(es@.skip(i as int)[0] == es@[i as int]);
            if let Some(t) = es[i].1.text_field(key) {
                return Some(t.clone());
            }
        }
        assert(es@.skip(n as int) =~= Seq::<(String, Json)>::empty());
    }
    None
}

/// The token found in a (trimmed) blob as text.
pub fn text_access_token(b: &str) -> (r: Option<String>)
    ensures
        opt_text(r) == text_token(b@),
{
    let cs = chars_of(b);
    let n: usize = cs.len();
    let key = chars_of("\"accessToken\"");
    let start: usize = match find_chars(&cs, &key, 0) {
        Some(i) => i,
        None => return None,
    };
    let rest = b.substring_char(start + key.len(), n);
    assert(rest@ =~= b@.skip(start + quoted_token_key().len()));
    let rest_cs = chars_of(rest);
    let colon_pat = vec![':'];
    assert(colon_pat@ =~= seq![':']);
    let colon: usize = match find_chars(&rest_cs, &colon_pat, 0) {
        Some(i) => i,
        None => return None,
    };
    let tail = rest.substring_char(colon + 1, rest_cs.len());
    assert(tail@ =~= rest@.skip(colon + 1));
    let after = trim(tail);
    let after_cs = chars_of(after);
    if after_cs.len() == 0 || after_cs[0] != '"' {
        return None;
    }
    let inner = after.substring_char(1, after_cs.len());
    assert(inner@ =~= after@.skip(1));
    let inner_cs = chars_of(inner);
    let quote_pat = vec!['"'];
    assert(quote_pat@ =~= seq!['"']);
    match find_chars(&inner_cs, &quote_pat, 0) {
        Some(end) => {
            let token = inner.substring_char(0, end);
            assert(token@ =~= inner@.take(end as int));
            Some(String::from_str(token))
        },
        None => None,
    }
}

/// The access token in a credentials blob, read as JSON where it parses and as
/// text otherwise.
pub fn extract_access_token(blob: &str) -> (r: Option<String>)
    ensures
        opt_text(r) == access_token(blob@),
{
    let b = trim(blob);
    if b.is_empty() {
        return None;
    }
    if let Some(doc) = parse_json(b) {
        if let Some(t) = json_access_token(&doc) {
            return Some(t);
        }
    }
    text_access_token(b)
}

/// The token the application signs in with: the one in the keychain entry when
/// there is an entry that holds one, else the one in the credentials file, if
/// that file could be read.
pub open spec fn chosen_token(keychain: Option<Seq<char>>, file: Option<Seq<char>>) -> Option<
    Seq<char>,
> {
    match keychain {
        Some(k) if access_token(k) is Some => access_token(k),
        _ => match file {
            Some(f) => access_token(f),
            None => None,
        },
    }
}

/// The optional contents of an optional text.
pub open spec fn opt_str_view(o: Option<&str>) -> Option<Seq<char>> {
    match o {
        Some(s) => Some(s@),
        None => None,
    }
}

/// Picks the token from what the keychain entry and the credentials file hold.
pub fn token_from_sources(keychain: Option<&str>, file: Option<&str>) -> (r: Option<String>)
    ensures
        opt_text(r) == chosen_token(opt_str_view(keychain), opt_str_view(file)),
{
    if let Some(k) = keychain {
        if let Some(t) = extract_access_token(k) {
            return Some(t);
        }
    }
    match file {
        Some(f) => extract_access_token(f),
        None => None,
    }
}

} // verus!

verus! {

/// White space around the blob does not change the token found in it.
pub proof fn law_token_ignores_surrounding_space(blob: Seq<char>)
    ensures
        access_token(trim_spec(blob)) == access_token(blob),
{
    crate::text::lemma_trim_idempotent(blob);
}

/// A credentials document's own string `accessToken` is the token, before any
/// nested one or any found in the text.
pub proof fn law_document_token_first(blob: Seq<char>, doc: Json, t: Seq<char>)
    requires
        trim_spec(blob).len() > 0,
        parsed_json(trim_spec(blob)) == Some(doc),
        text_field(doc, "accessToken"@) == Some(t),
    ensures
        access_token(blob) == Some(t),
{
}

/// A blob of white space alone holds no token.
pub proof fn law_blank_blob_has_no_token(blob: Seq<char>)
    requires
        trim_spec(blob).len() == 0,
    ensures
        access_token(blob) is None,
{
}

} // verus!
