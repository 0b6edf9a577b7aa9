//! Calls into the `regex` and `html-escape` crates.
//!
//! Regular-expression semantics and the HTML entity table take pages to state, so each
//! call's result is given a name below; the verified modules speak of these names.

use vstd::prelude::*;
use crate::text::eq_ignore_ascii_case;

verus! {

/// What `RegexBuilder::new(pattern).case_insensitive(ci).build()` followed by
/// `Regex::is_match(text)` returns; `false` when the pattern does not compile.
pub uninterp spec fn regex_finds(pattern: Seq<char>, case_insensitive: bool, text: Seq<char>) -> bool;

/// What `Regex::new(pattern)` followed by `Regex::replace_all(text, replacement)` returns;
/// `text` itself when the pattern does not compile.
pub uninterp spec fn regex_replaced(pattern: Seq<char>, text: Seq<char>, replacement: Seq<char>) -> Seq<char>;

/// What `Regex::new(pattern)` followed by `Regex::captures(text)` yields as the text of
/// capture groups 1 and 2 (an empty string for a group that did not take part);
/// `None` when there is no match or the pattern does not compile.
pub uninterp spec fn regex_capture_pair(pattern: Seq<char>, text: Seq<char>) -> Option<(Seq<char>, Seq<char>)>;

/// What `html_escape::decode_html_entities(text)` returns.
pub uninterp spec fn entities_decoded(text: Seq<char>) -> Seq<char>;

/// A pattern in which every `(?` opens a plain group `(?:`, so no inline flag can turn
/// case-insensitive matching off.
pub open spec fn flag_free(p: Seq<char>) -> bool {
    forall|i: int| 0 <= i && i + 2 < p.len() && #[trigger] p[i] == '(' && p[i + 1] == '?' ==> p[i + 2] == ':'
}

/// Wraps `regex::RegexBuilder` (`new`, `case_insensitive`, `build`) and `Regex::is_match`:
/// the result is the name `regex_finds` of the pattern, the flag and the text. The crate
/// documents case-insensitive matching as Unicode simple case folding, which only inline
/// flags (`(?-i)`) turn off: so under the flag, with no inline flag in the pattern, texts
/// that differ only in the case of ASCII letters give the same answer.
#[verifier::external_body]
pub(crate) fn regex_is_match(pattern: &str, case_insensitive: bool, text: &str) -> (r: bool)
    ensures
        r == regex_finds(pattern@, case_insensitive, text@),
        case_insensitive && flag_free(pattern@) ==> forall|other: Seq<char>|
            eq_ignore_ascii_case(text@, other) ==> r == #[trigger] regex_finds(pattern@, true, other),
{
    match regex::RegexBuilder::new(pattern).case_insensitive(case_insensitive).build() {
        Ok(re) => re.is_match(text),
        Err(_) => false,
    }
}

/// Wraps `regex::Regex::new` and `Regex::replace_all` (with `$n` group references in the
/// replacement): the result is the name `regex_replaced` of its three arguments.
#[verifier::external_body]
pub(crate) fn regex_replace_all(pattern: &str, text: &str, replacement: &str) -> (r: String)
    ensures
        r@ == regex_replaced(pattern@, text@, replacement@),
{
    match regex::Regex::new(pattern) {
        Ok(re) => re.replace_all(text, replacement).into_owned(),
        Err(_) => text.to_string(),
    }
}

/// Wraps `regex::Regex::new` and `Regex::captures`, handing out groups 1 and 2 as owned
/// strings: the result is the name `regex_capture_pair` of the pattern and the text.
#[verifier::external_body]
pub(crate) fn regex_captures_two(pattern: &str, text: &str) -> (r: Option<(String, String)>)
    ensures
        r is None <==> regex_capture_pair(pattern@, text@) is None,
        r matches Some(p) ==> regex_capture_pair(pattern@, text@) == Some((p.0@, p.1@)),
{
    let re = match regex::Regex::new(pattern) {
        Ok(re) => re,
        Err(_) => return None,
    };
    let caps = re.captures(text)?;
    let g1 = caps.get(1).map_or("", |m| m.as_str()).to_string();
    let g2 = caps.get(2).map_or("", |m| m.as_str()).to_string();
    Some((g1, g2))
}

/// Wraps `html_escape::decode_html_entities`: the result is the name `entities_decoded` of
/// the text.
#[verifier::external_body]
pub(crate) fn decode_html_entities(text: &str) -> (r: String)
    ensures
        r@ == entities_decoded(text@),
{
    html_escape::decode_html_entities(text).into_owned()
}

/// What `Regex::new(pattern)` followed by `Regex::find_iter(text)` yields: the texts of
/// the successive non-overlapping matches; none when the pattern does not compile.
pub uninterp spec fn regex_matches(pattern: Seq<char>, text: Seq<char>) -> Seq<Seq<char>>;

/// Wraps `regex::Regex::new` and `Regex::find_iter`, handing out each match as an owned
/// string: the result is the name `regex_matches` of the pattern and the text.
#[verifier::external_body]
pub(crate) fn regex_find_all(pattern: &str, text: &str) -> (r: Vec<String>)
    ensures
        r@.map_values(|m: String| m@) == regex_matches(pattern@, text@),
{
    match regex::Regex::new(pattern) {
        Ok(re) => re.find_iter(text).map(|m| m.as_str().to_string()).collect(),
        Err(_) => Vec::new(),
    }
}

/// The entity `html_escape::encode_safe` writes for a character: `&`, `<`, `>`, `"`, `'`
/// and `/` are escaped, every other character is kept.
pub open spec fn safe_entity(c: char) -> Seq<char> {
    if c == '&' {
        "&amp;"@
    } else if c == '<' {
        "&lt;"@
    } else if c == '>' {
        "&gt;"@
    } else if c == '"' {
        "&quot;"@
    } else if c == '\'' {
        "&#x27;"@
    } else if c == '/' {
        "&#x2F;"@
    } else {
        seq![c]
    }
}

/// The text with each character replaced by its `safe_entity`.
pub open spec fn html_safe(s: Seq<char>) -> Seq<char>
    decreases s.len(),
{
    if s.len() == 0 {
        Seq::empty()
    } else {
        html_safe(s.drop_last()) + safe_entity(s.last())
    }
}

/// Wraps `html_escape::encode_safe`, which escapes `&`, `<`, `>`, `"`, `'` and `/` as the
/// entities its documentation lists and keeps every other character.
#[verifier::external_body]
pub(crate) fn encode_safe(text: &str) -> (r: String)
    ensures
        r@ == html_safe(text@),
{
    html_escape::encode_safe(text).into_owned()
}

} // verus!
