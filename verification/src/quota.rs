//! The model quota report of the agent's `/usage` screen: the account and, for each model
//! group, the weekly and five-hour limits with their remaining percentage and reset note.
//!
//! The screen is read as text with its terminal escapes already removed. A percentage is
//! kept as the text of its number, which parses as a float.

use vstd::prelude::*;
use crate::text::{
    append, append_str, chars_of, contains, contains_str, exceeds_bytes, find, find_chars, lines,
    lines_chars, seqs, slice, starts_with, starts_with_str, string_of, trim, trim_chars, truncate_bytes,
    truncate_bytes_chars, utf8_len, words, words_chars,
};

verus! {

/// A character kept at the ends of a percentage's number.
pub open spec fn number_char(c: char) -> bool {
    ('0' <= c && c <= '9') || c == '.'
}

/// `s` without its leading characters that are neither digits nor dots.
pub open spec fn trim_number_start(s: Seq<char>) -> Seq<char>
    decreases s.len(),
{
    if s.len() > 0 && !number_char(s[0]) {
        trim_number_start(s.drop_first())
    } else {
        s
    }
}

/// `s` without its trailing characters that are neither digits nor dots.
pub open spec fn trim_number_end(s: Seq<char>) -> Seq<char>
    decreases s.len(),
{
    if s.len() > 0 && !number_char(s.last()) {
        trim_number_end(s.drop_last())
    } else {
        s
    }
}

/// A word with everything but digits and dots cut from both ends.
pub open spec fn number_text(s: Seq<char>) -> Seq<char> {
    trim_number_end(trim_number_start(s))
}

/// Text that parses as a float and is made of digits and dots: at least one digit and at
/// most one dot.
pub open spec fn float_text(s: Seq<char>) -> bool {
    &&& forall|i: int| 0 <= i < s.len() ==> number_char(#[trigger] s[i])
    &&& exists|i: int| 0 <= i < s.len() && #[trigger] s[i] != '.'
    &&& forall|i: int, j: int| #![trigger s[i], s[j]] 0 <= i < j < s.len() && s[i] == '.' ==> s[j] != '.'
}

/// The part of a screen read for one limit, from its header: up to the first blank line,
/// or else at most 400 bytes.
pub open spec fn limit_chunk(slice: Seq<char>) -> Seq<char> {
    match find(slice, "\n\n"@) {
        Some(i) => slice.take(i),
        None => if utf8_len(slice) > 400 {
            truncate_bytes(slice, 400)
        } else {
            slice
        },
    }
}

/// Cutting at 400 bytes lands on a character boundary, where it is done (elsewhere the cut
/// panics).
pub open spec fn limit_cut_ok(text: Seq<char>, header: Seq<char>) -> bool {
    match find(text, header) {
        Some(p) => {
            let slice = text.skip(p);
            find(slice, "\n\n"@) is Some || utf8_len(slice) <= 400 || utf8_len(truncate_bytes(slice, 400))
                == 400
        },
        None => true,
    }
}

/// The reset note among the lines after a limit's header: the first line that is not
/// blank, not a bar (`[` or `|`), unless a line naming a limit or models comes first.
pub open spec fn detail_from(ls: Seq<Seq<char>>) -> Seq<char>
    decreases ls.len(),
{
    if ls.len() == 0 {
        Seq::empty()
    } else {
        let l = trim(ls[0]);
        if l.len() == 0 || starts_with(l, "["@) || starts_with(l, "|"@) {
            detail_from(ls.drop_first())
        } else if contains(l, "Limit"@) || contains(l, "MODELS"@) || contains(l, "Models"@) {
            Seq::empty()
        } else {
            l
        }
    }
}

/// The lines of `s` after its first.
pub open spec fn later_lines(s: Seq<char>) -> Seq<Seq<char>> {
    let ls = lines(s);
    if ls.len() > 0 {
        ls.drop_first()
    } else {
        ls
    }
}

/// The percentage text and reset note of the limit headed `header` in `text`: the last
/// word before the first `%` after the header, trimmed to its number, must parse.
pub open spec fn limit_of(text: Seq<char>, header: Seq<char>) -> Option<(Seq<char>, Seq<char>)> {
    match find(text, header) {
        None => None,
        Some(p) => {
            let chunk = limit_chunk(text.skip(p));
            match find(chunk, "%"@) {
                None => None,
                Some(q) => {
                    let ws = words(chunk.take(q));
                    if ws.len() == 0 {
                        None
                    } else {
                        let n = number_text(ws.last());
                        if float_text(n) {
                            Some((n, detail_from(later_lines(chunk))))
                        } else {
                            None
                        }
                    }
                },
            }
        },
    }
}

/// One limit: the remaining percentage, as the text of its number, and the reset note.
#[derive(Clone, Debug, PartialEq, Eq)]
pub struct QuotaLimit {
    pub pct: String,
    pub detail: String,
}

/// A limit as (percentage text, reset note).
pub open spec fn limit_view(l: Option<QuotaLimit>) -> Option<(Seq<char>, Seq<char>)> {
    match l {
        Some(q) => Some((q.pct@, q.detail@)),
        None => None,
    }
}

/// Where `p` first occurs in `s`; the match lies inside `s`.
fn locate(s: &Vec<char>, p: &Vec<char>) -> (r: Option<usize>)
    ensures
        r matches Some(i) ==> find(s@, p@) == Some(i as int) && i + p@.len() <= s@.len(),
        r is None ==> find(s@, p@) is None,
{
    proof {
        crate::remote_hub::lemma_find_in_bounds(s@, p@, 0);
    }
    find_chars(s, p)
}

fn trim_number(s: &Vec<char>) -> (r: Vec<char>)
    ensures
        r@ == number_text(s@),
{
    let mut lo: usize = 0;
    assert(s@.skip(0) == s@);
    while lo < s.len() && !(('0' <= s[lo] && s[lo] <= '9') || s[lo] == '.')
        invariant
            lo <= s@.len(),
            trim_number_start(s@.skip(lo as int)) == trim_number_start(s@),
        decreases s.len() - lo,
    {
        assert(s@.skip(lo as int).drop_first() == s@.skip(lo + 1));
        lo = lo + 1;
    }
    let t = slice(s, lo, s.len());
    assert(t@ == s@.skip(lo as int));
    let mut hi: usize = t.len();
    assert(t@.take(hi as int) == t@);
    while hi > 0 && !(('0' <= t[hi - 1] && t[hi - 1] <= '9') || t[hi - 1] == '.')
        invariant
            hi <= t@.len(),
            trim_number_end(t@.take(hi as int)) == trim_number_end(t@),
        decreases hi,
    {
        assert(t@.take(hi as int).drop_last() == t@.take(hi - 1));
        hi = hi - 1;
    }
    assert(t@.take(hi as int) == t@.subrange(0, hi as int));
    slice(&t, 0, hi)
}

fn is_float_text(s: &Vec<char>) -> (r: bool)
    ensures
        r == float_text(s@),
{
    let mut digit = false;
    let mut dots: usize = 0;
    let mut i: usize = 0;
    while i < s.len()
        invariant
            i <= s@.len(),
            dots <= i,
            forall|k: int| 0 <= k < i ==> number_char(#[trigger] s@[k]),
            digit == exists|k: int| 0 <= k < i && #[trigger] s@[k] != '.',
            dots <= 1,
            dots == 0 ==> forall|k: int| 0 <= k < i ==> #[trigger] s@[k] != '.',
            dots == 1 ==> exists|k: int| 0 <= k < i && #[trigger] s@[k] == '.',
            forall|a: int, b: int| #![trigger s@[a], s@[b]] 0 <= a < b < i && s@[a] == '.' ==> s@[b] != '.',
        decreases s.len() - i,
    {
        let c = s[i];
        if c == '.' {
            if dots == 1 {
                let ghost a = choose|k: int| 0 <= k < i && #[trigger] s@[k] == '.';
                assert(0 <= a < i && s@[a] == '.' && s@[i as int] == '.');
                return false;
            }
            dots = 1;
        } else if '0' <= c && c <= '9' {
            digit = true;
        } else {
            assert(!number_char(s@[i as int]));
            return false;
        }
        i = i + 1;
    }
    digit
}

fn detail_of(ls: &Vec<Vec<char>>, from: usize) -> (r: Vec<char>)
    requires
        from <= ls@.len(),
    ensures
        r@ == detail_from(seqs(ls@).skip(from as int)),
{
    let mut i = from;
    while i < ls.len()
        invariant
            from <= i <= ls@.len(),
            detail_from(seqs(ls@).skip(i as int)) == detail_from(seqs(ls@).skip(from as int)),
        decreases ls.len() - i,
    {
        assert(seqs(ls@).skip(i as int)[0] == ls@[i as int]@);
        assert(seqs(ls@).skip(i as int).drop_first() == seqs(ls@).skip(i + 1));
        let l = trim_chars(&ls[i]);
        if l.len() == 0 || starts_with_str(&l, "[") || starts_with_str(&l, "|") {
            i = i + 1;
        } else if contains_str(&l, "Limit") || contains_str(&l, "MODELS") || contains_str(&l, "Models") {
            return Vec::new();
        } else {
            return l;
        }
    }
    assert(seqs(ls@).skip(i as int).len() == 0);
    Vec::new()
}

/// Reads the limit headed `header` in `text`.
pub fn parse_limit(text: &str, header: &str) -> (r: Option<QuotaLimit>)
    requires
        limit_cut_ok(text@, header@),
    ensures
        limit_view(r) == limit_of(text@, header@),
{
    let t = chars_of(text);
    let h = chars_of(header);
    let p = match locate(&t, &h) {
        Some(p) => p,
        None => return None,
    };
    let from = slice(&t, p, t.len());
    assert(from@ == text@.skip(p as int));
    let blank = chars_of("\n\n");
    let chunk = match locate(&from, &blank) {
        Some(i) => {
            assert(from@.take(i as int) == from@.subrange(0, i as int));
            slice(&from, 0, i)
        },
        None => if exceeds_bytes(&from, 400) {
            truncate_bytes_chars(&from, 400)
        } else {
            from
        },
    };
    assert(chunk@ == limit_chunk(text@.skip(p as int)));
    let pct = chars_of("%");
    let q = match locate(&chunk, &pct) {
        Some(q) => q,
        None => return None,
    };
    assert(chunk@.take(q as int) == chunk@.subrange(0, q as int));
    let ws = words_chars(&slice(&chunk, 0, q));
    if ws.len() == 0 {
        return None;
    }
    assert(seqs(ws@).last() == ws@[ws.len() - 1]@);
    let n = trim_number(&ws[ws.len() - 1]);
    if !is_float_text(&n) {
        return None;
    }
    let ls = lines_chars(&chunk);
    let start: usize = if ls.len() > 0 { 1 } else { 0 };
    assert(seqs(ls@).skip(start as int) == later_lines(chunk@));
    let detail = detail_of(&ls, start);
    Some(QuotaLimit { pct: string_of(&n), detail: string_of(&detail) })
}

/// The lines of a group, up to the line that starts the next group, each ended by `\n`.
pub open spec fn block_text(ls: Seq<Seq<char>>) -> Seq<char>
    decreases ls.len(),
{
    if ls.len() == 0 || contains(ls[0], "MODELS"@) {
        Seq::empty()
    } else {
        ls[0] + "\n"@ + block_text(ls.drop_first())
    }
}

/// The text of the group marked `marker`: the lines after the marker's line.
pub open spec fn block_of(text: Seq<char>, marker: Seq<char>) -> Option<Seq<char>> {
    match find(text, marker) {
        Some(p) => Some(block_text(later_lines(text.skip(p)))),
        None => None,
    }
}

/// The five-hour limit of a group, under any of its three headings.
pub open spec fn five_hour_of(block: Seq<char>) -> Option<(Seq<char>, Seq<char>)> {
    match limit_of(block, "Five Hour Limit"@) {
        Some(l) => Some(l),
        None => match limit_of(block, "5-Hour Limit"@) {
            Some(l) => Some(l),
            None => limit_of(block, "5 Hour Limit"@),
        },
    }
}

/// Reading the limits of a group panics on none of the headings it looks for.
pub open spec fn group_cut_ok(text: Seq<char>, marker: Seq<char>) -> bool {
    match block_of(text, marker) {
        Some(b) => {
            &&& limit_cut_ok(b, "Weekly Limit"@)
            &&& limit_cut_ok(b, "Five Hour Limit"@)
            &&& limit_of(b, "Five Hour Limit"@) is None ==> limit_cut_ok(b, "5-Hour Limit"@)
            &&& limit_of(b, "Five Hour Limit"@) is None && limit_of(b, "5-Hour Limit"@) is None
                ==> limit_cut_ok(b, "5 Hour Limit"@)
        },
        None => true,
    }
}

/// The weekly and five-hour limits of the group marked `marker`, when it has either.
pub open spec fn group_of(text: Seq<char>, marker: Seq<char>) -> Option<(Option<(Seq<char>, Seq<char>)>, Option<(Seq<char>, Seq<char>)>)> {
    match block_of(text, marker) {
        Some(b) => {
            let w = limit_of(b, "Weekly Limit"@);
            let f = five_hour_of(b);
            if w is Some || f is Some {
                Some((w, f))
            } else {
                None
            }
        },
        None => None,
    }
}

/// The limits of one model group.
#[derive(Clone, Debug, PartialEq, Eq)]
pub struct ModelQuotaGroup {
    pub weekly: Option<QuotaLimit>,
    pub five_hour: Option<QuotaLimit>,
}

/// A group as its two limits.
pub open spec fn group_view(g: Option<ModelQuotaGroup>) -> Option<(Option<(Seq<char>, Seq<char>)>, Option<(Seq<char>, Seq<char>)>)> {
    match g {
        Some(q) => Some((limit_view(q.weekly), limit_view(q.five_hour))),
        None => None,
    }
}

/// Reads the limits of the group marked `marker` in `text`.
pub fn parse_group_block(text: &str, marker: &str) -> (r: Option<ModelQuotaGroup>)
    requires
        group_cut_ok(text@, marker@),
    ensures
        group_view(r) == group_of(text@, marker@),
{
    let t = chars_of(text);
    let m = chars_of(marker);
    let p = match locate(&t, &m) {
        Some(p) => p,
        None => return None,
    };
    let from = slice(&t, p, t.len());
    assert(from@ == text@.skip(p as int));
    let ls = lines_chars(&from);
    let start: usize = if ls.len() > 0 { 1 } else { 0 };
    let ghost rest = seqs(ls@).skip(start as int);
    assert(rest == later_lines(from@));
    let mut block: Vec<char> = Vec::new();
    let mut i = start;
    while i < ls.len() && !contains_str(&ls[i], "MODELS")
        invariant
            start <= i <= ls@.len(),
            rest == seqs(ls@).skip(start as int),
            block@ + block_text(seqs(ls@).skip(i as int)) == block_text(rest),
        decreases ls.len() - i,
    {
        assert(seqs(ls@).skip(i as int)[0] == ls@[i as int]@);
        assert(seqs(ls@).skip(i as int).drop_first() == seqs(ls@).skip(i + 1));
        let ghost before = block@;
        append(&mut block, &ls[i]);
        append_str(&mut block, "\n");
        assert(block@ == before + ls@[i as int]@ + "\n"@);
        assert(before + (ls@[i as int]@ + "\n"@ + block_text(seqs(ls@).skip(i + 1))) == block@ + block_text(
            seqs(ls@).skip(i + 1),
        ));
        i = i + 1;
    }
    proof {
        if i < ls.len() {
            assert(seqs(ls@).skip(i as int)[0] == ls@[i as int]@);
        }
        assert(block_text(seqs(ls@).skip(i as int)) == Seq::<char>::empty());
        assert(block@ + Seq::<char>::empty() == block@);
    }
    let b = string_of(&block);
    let weekly = parse_limit(b.as_str(), "Weekly Limit");
    let mut five = parse_limit(b.as_str(), "Five Hour Limit");
    if five.is_none() {
        five = parse_limit(b.as_str(), "5-Hour Limit");
        if five.is_none() {
            five = parse_limit(b.as_str(), "5 Hour Limit");
        }
    }
    if weekly.is_some() || five.is_some() {
        Some(ModelQuotaGroup { weekly, five_hour: five })
    } else {
        None
    }
}

/// The account named on a line holding `Account:` or `Account :`: the text after the
/// first `Account` (up to a second one), without leading colons, trimmed.
pub open spec fn account_in(line: Seq<char>) -> Option<Seq<char>> {
    match find(line, "Account"@) {
        Some(p) => {
            let rest = line.skip(p + 7);
            let piece = match find(rest, "Account"@) {
                Some(q) => rest.take(q),
                None => rest,
            };
            let a = trim(strip_colons(piece));
            if a.len() > 0 {
                Some(a)
            } else {
                None
            }
        },
        None => None,
    }
}

/// `s` without its leading colons.
pub open spec fn strip_colons(s: Seq<char>) -> Seq<char>
    decreases s.len(),
{
    if s.len() > 0 && s[0] == ':' {
        strip_colons(s.drop_first())
    } else {
        s
    }
}

/// The line holding the account, if any: the first with `Account:` or `Account :`.
pub open spec fn account_line(ls: Seq<Seq<char>>) -> Option<Seq<char>>
    decreases ls.len(),
{
    if ls.len() == 0 {
        None
    } else if contains(ls[0], "Account:"@) || contains(ls[0], "Account :"@) {
        Some(ls[0])
    } else {
        account_line(ls.drop_first())
    }
}

/// The account named on the screen.
pub open spec fn account_of(text: Seq<char>) -> Option<Seq<char>> {
    match account_line(lines(text)) {
        Some(l) => account_in(l),
        None => None,
    }
}

/// What the `/usage` screen reports: the account, and the limits of each model group
/// asked for, in the order of the markers.
#[derive(Clone, Debug, PartialEq, Eq)]
pub struct QuotaReport {
    pub account: Option<String>,
    pub groups: Vec<Option<ModelQuotaGroup>>,
    pub raw_fallback: String,
}

fn account_from(line: &Vec<char>) -> (r: Option<String>)
    ensures
        r is None <==> account_in(line@) is None,
        r matches Some(a) ==> account_in(line@) == Some(a@),
{
    proof {
        reveal_strlit("Account");
    }
    let key = chars_of("Account");
    let p = match locate(line, &key) {
        Some(p) => p,
        None => return None,
    };
    assert(key@.len() == 7);
    let n = line.len();
    let rest = slice(line, p + 7, n);
    assert(rest@ == line@.skip(p + 7));
    let piece = match locate(&rest, &key) {
        Some(q) => {
            assert(rest@.take(q as int) == rest@.subrange(0, q as int));
            slice(&rest, 0, q)
        },
        None => rest,
    };
    let mut k: usize = 0;
    assert(piece@.skip(0) == piece@);
    while k < piece.len() && piece[k] == ':'
        invariant
            k <= piece@.len(),
            strip_colons(piece@.skip(k as int)) == strip_colons(piece@),
        decreases piece.len() - k,
    {
        assert(piece@.skip(k as int).drop_first() == piece@.skip(k + 1));
        k = k + 1;
    }
    let stripped = slice(&piece, k, piece.len());
    assert(stripped@ == piece@.skip(k as int));
    let a = trim_chars(&stripped);
    if a.len() > 0 {
        Some(string_of(&a))
    } else {
        None
    }
}

/// Reads the `/usage` screen, given as text without terminal escapes, for the model
/// groups whose headings hold `markers` (the screen names `GEMINI` first).
pub fn parse_quota_report(stripped: &str, markers: &Vec<String>) -> (r: QuotaReport)
    requires
        forall|k: int| 0 <= k < markers@.len() ==> group_cut_ok(stripped@, #[trigger] markers@[k]@),
    ensures
        r.account is None <==> account_of(stripped@) is None,
        r.account matches Some(a) ==> account_of(stripped@) == Some(a@),
        r.groups@.len() == markers@.len(),
        forall|k: int| 0 <= k < markers@.len() ==> group_view(#[trigger] r.groups@[k]) == group_of(stripped@, markers@[k]@),
        r.raw_fallback@ == stripped@,
{
    let ls = lines_chars(&chars_of(stripped));
    let mut i: usize = 0;
    assert(seqs(ls@).skip(0) == seqs(ls@));
    while i < ls.len() && !(contains_str(&ls[i], "Account:") || contains_str(&ls[i], "Account :"))
        invariant
            i <= ls@.len(),
            seqs(ls@) == lines(stripped@),
            account_line(seqs(ls@).skip(i as int)) == account_line(seqs(ls@)),
        decreases ls.len() - i,
    {
        assert(seqs(ls@).skip(i as int)[0] == ls@[i as int]@);
        assert(seqs(ls@).skip(i as int).drop_first() == seqs(ls@).skip(i + 1));
        i = i + 1;
    }
    let account = if i < ls.len() {
        assert(seqs(ls@).skip(i as int)[0] == ls@[i as int]@);
        account_from(&ls[i])
    } else {
        assert(seqs(ls@).skip(i as int).len() == 0);
        None
    };
    let mut groups: Vec<Option<ModelQuotaGroup>> = Vec::new();
    let mut k: usize = 0;
    while k < markers.len()
        invariant
            k <= markers@.len(),
            groups@.len() == k,
            forall|j: int| 0 <= j < markers@.len() ==> group_cut_ok(stripped@, #[trigger] markers@[j]@),
            forall|j: int| 0 <= j < k ==> group_view(#[trigger] groups@[j]) == group_of(stripped@, markers@[j]@),
        decreases markers.len() - k,
    {
        assert(group_cut_ok(stripped@, markers@[k as int]@));
        groups.push(parse_group_block(stripped, markers[k].as_str()));
        k = k + 1;
    }
    QuotaReport { account, groups, raw_fallback: stripped.to_owned() }
}

} // verus!
