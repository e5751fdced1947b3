//! Calls into outside crates, each with the contract that the rest of the library
//! relies on.
use vstd::prelude::*;

use md5::Md5;
use scraper::{Html, Selector};
use sha1::Sha1;
use sha2::{Digest, Sha256, Sha512};

use crate::shell::hex_digit;

verus! {

/// How serde_json writes one character inside a JSON string: `"` and `\` behind a
/// backslash; backspace, tab, line feed, form feed and carriage return as `\b`,
/// `\t`, `\n`, `\f`, `\r`; other characters below U+0020 as `\u00` and two
/// lowercase hex digits; every other character as itself.
pub open spec fn json_escape_char(c: char) -> Seq<char> {
    if c == '"' {
        seq!['\\', '"']
    } else if c == '\\' {
        seq!['\\', '\\']
    } else if c == '\u{8}' {
        seq!['\\', 'b']
    } else if c == '\t' {
        seq!['\\', 't']
    } else if c == '\n' {
        seq!['\\', 'n']
    } else if c == '\u{c}' {
        seq!['\\', 'f']
    } else if c == '\r' {
        seq!['\\', 'r']
    } else if (c as int) < 32 {
        seq!['\\', 'u', '0', '0', hex_digit(((c as int) / 16) as nat), hex_digit(((c as int) % 16) as nat)]
    } else {
        seq![c]
    }
}

/// The characters of `s`, each escaped as serde_json escapes it.
pub open spec fn json_escaped(s: Seq<char>) -> Seq<char>
    decreases s.len(),
{
    if s.len() == 0 {
        Seq::empty()
    } else {
        json_escaped(s.drop_last()) + json_escape_char(s.last())
    }
}

/// What `serde_json::to_string` produces for a string: the escaped string between
/// double quotes.
pub open spec fn json_string_literal(s: Seq<char>) -> Seq<char> {
    seq!['"'] + json_escaped(s) + seq!['"']
}

/// A character that serde_json's string escaper writes unchanged: not a control
/// character below U+0020, not `"` and not `\`.
pub open spec fn is_json_plain_char(c: char) -> bool {
    ' ' <= c && c != '"' && c != '\\'
}

/// `serde_json::to_string` on a `str`: serde_json's `format_escaped_str` writes the
/// string between double quotes, escaping bytes below 0x20, `"` and `\` by its
/// `ESCAPE` table (stated as `json_string_literal`); a string of other characters
/// therefore comes back only quoted, which is stated too. Serializing a `str` into
/// serde_json's in-memory writer cannot fail, so the error arm is never taken.
#[verifier::external_body]
pub fn json_quote(s: &str) -> (r: String)
    ensures
        r@ == json_string_literal(s@),
        (forall|i: int| 0 <= i < s@.len() ==> is_json_plain_char(#[trigger] s@[i])) ==> r@
            == seq!['"'] + s@ + seq!['"'],
{
    match serde_json::to_string(s) {
        Ok(text) => text,
        Err(error) => error.to_string(),
    }
}

/// The SHA-256 digest of a byte string.
pub uninterp spec fn sha256_of(data: Seq<u8>) -> Seq<u8>;

/// The SHA-512 digest of a byte string.
pub uninterp spec fn sha512_of(data: Seq<u8>) -> Seq<u8>;

/// The SHA-1 digest of a byte string.
pub uninterp spec fn sha1_of(data: Seq<u8>) -> Seq<u8>;

/// The MD5 digest of a byte string.
pub uninterp spec fn md5_of(data: Seq<u8>) -> Seq<u8>;

/// `sha2::Sha256::digest`: the digest is named `sha256_of(data)`; it is 32 bytes long.
#[verifier::external_body]
pub fn sha256_digest(data: &[u8]) -> (r: Vec<u8>)
    ensures
        r@ == sha256_of(data@),
        r@.len() == 32,
{
    Sha256::digest(data).to_vec()
}

/// `sha2::Sha512::digest`: the digest is named `sha512_of(data)`; it is 64 bytes long.
#[verifier::external_body]
pub fn sha512_digest(data: &[u8]) -> (r: Vec<u8>)
    ensures
        r@ == sha512_of(data@),
        r@.len() == 64,
{
    Sha512::digest(data).to_vec()
}

/// `sha1::Sha1::digest`: the digest is named `sha1_of(data)`; it is 20 bytes long.
#[verifier::external_body]
pub fn sha1_digest(data: &[u8]) -> (r: Vec<u8>)
    ensures
        r@ == sha1_of(data@),
        r@.len() == 20,
{
    Sha1::digest(data).to_vec()
}

/// `md5::Md5::digest` (package `md-5`): the digest is named `md5_of(data)`; it is 16
/// bytes long.
#[verifier::external_body]
pub fn md5_digest(data: &[u8]) -> (r: Vec<u8>)
    ensures
        r@ == md5_of(data@),
        r@.len() == 16,
{
    Md5::digest(data).to_vec()
}

/// Why `scraper::Selector::parse` refuses a selector, if it does.
pub uninterp spec fn selector_error(selector: Seq<char>) -> Option<Seq<char>>;

/// The outer HTML of the elements a selector matches in an HTML fragment, or why the
/// selector does not parse.
pub uninterp spec fn html_select_all(document: Seq<char>, selector: Seq<char>) -> Result<
    Seq<Seq<char>>,
    Seq<char>,
>;

/// For each element that `root` matches in an HTML fragment, the outer HTML of the
/// elements a selector matches below it; or why a selector does not parse.
pub uninterp spec fn html_select_under(document: Seq<char>, root: Seq<char>, selector: Seq<char>) -> Result<
    Seq<Seq<Seq<char>>>,
    Seq<char>,
>;

/// For each element that `root` matches in an HTML fragment, the text nodes below
/// it; or why `root` does not parse.
pub uninterp spec fn html_root_text(document: Seq<char>, root: Seq<char>) -> Result<
    Seq<Seq<Seq<char>>>,
    Seq<char>,
>;

/// An attribute of the first element `root` matches in an HTML fragment.
pub uninterp spec fn html_root_attr(document: Seq<char>, root: Seq<char>, attribute: Seq<char>) -> Option<
    Seq<char>,
>;

/// `scraper::Selector::parse`, kept for its error: the outcome is named
/// `selector_error(selector)`.
#[verifier::external_body]
pub fn check_selector(selector: &str) -> (r: Option<String>)
    ensures
        r.deep_view() == selector_error(selector@),
{
    match Selector::parse(selector) {
        Ok(_) => None,
        Err(error) => Some(error.to_string()),
    }
}

/// `scraper::Html::parse_fragment` and `Html::select`, collecting each match's `html()`.
/// The result is named `html_select_all`.
#[verifier::external_body]
pub fn select_all(document: &str, selector: &str) -> (r: Result<Vec<String>, String>)
    ensures
        match r {
            Ok(v) => html_select_all(document@, selector@) == Ok::<Seq<Seq<char>>, Seq<char>>(
                v.deep_view(),
            ),
            Err(e) => html_select_all(document@, selector@) == Err::<Seq<Seq<char>>, Seq<char>>(e@),
        },
{
    let selector = Selector::parse(selector).map_err(|error| error.to_string())?;
    let html = Html::parse_fragment(document);
    Ok(html.select(&selector).map(|element| element.html()).collect())
}

/// `scraper::Html::parse_fragment`, `Html::select` with `root`, then `ElementRef::select`
/// on each root, collecting each match's `html()`, one list per root. The result is
/// named `html_select_under`.
#[verifier::external_body]
pub fn select_under(document: &str, root: &str, selector: &str) -> (r: Result<Vec<Vec<String>>, String>)
    ensures
        match r {
            Ok(v) => html_select_under(document@, root@, selector@) == Ok::<
                Seq<Seq<Seq<char>>>,
                Seq<char>,
            >(v.deep_view()),
            Err(e) => html_select_under(document@, root@, selector@) == Err::<
                Seq<Seq<Seq<char>>>,
                Seq<char>,
            >(e@),
        },
{
    let selector = Selector::parse(selector).map_err(|error| error.to_string())?;
    let root = Selector::parse(root).map_err(|error| error.to_string())?;
    let html = Html::parse_fragment(document);
    Ok(html.select(&root).map(|r| r.select(&selector).map(|e| e.html()).collect()).collect())
}

/// `scraper`: the `text()` nodes of each element `root` selects in a fragment, one
/// list per element. The result is named `html_root_text`.
#[verifier::external_body]
pub fn root_text(document: &str, root: &str) -> (r: Result<Vec<Vec<String>>, String>)
    ensures
        match r {
            Ok(t) => html_root_text(document@, root@) == Ok::<Seq<Seq<Seq<char>>>, Seq<char>>(
                t.deep_view(),
            ),
            Err(e) => html_root_text(document@, root@) == Err::<Seq<Seq<Seq<char>>>, Seq<char>>(e@),
        },
{
    let root = Selector::parse(root).map_err(|error| error.to_string())?;
    let html = Html::parse_fragment(document);
    Ok(html.select(&root).map(|element| element.text().map(String::from).collect()).collect())
}

/// `scraper`: an attribute of the first element `root` selects in a fragment; none
/// when `root` does not parse. The result is named `html_root_attr`.
#[verifier::external_body]
pub fn root_attr(document: &str, root: &str, attribute: &str) -> (r: Option<String>)
    ensures
        r.deep_view() == html_root_attr(document@, root@, attribute@),
{
    let root = Selector::parse(root).ok()?;
    let html = Html::parse_fragment(document);
    let element = html.select(&root).next()?;
    element.value().attr(attribute).map(String::from)
}

} // verus!
