//! Markdown to Matrix HTML conversion, and splitting of long bodies into events.
//!
//! A body is converted line by line: fenced code blocks, headings, horizontal rules and
//! inline markup (code, bold, italic, strike-through, links). Bodies are cut between lines
//! into chunks of at most 60 000 bytes each; a single longer line stays whole.

use vstd::prelude::*;
use crate::patterns::{
    decode_html_entities, entities_decoded, regex_capture_pair, regex_captures_two, regex_finds,
    regex_is_match, regex_replace_all, regex_replaced,
};
use crate::text::{
    lacks, lemma_split_join_lines, lemma_split_pieces_lack, lemma_utf8_len_concat,
    lemma_utf8_len_push, lemma_join_push, lemma_join_split, append, append_str, chars_of, decimal, decimal_u64, join, join_chars, seqs,
    slice, split, split_chars, starts_with, starts_with_str, string_of, trim, trim_chars, trim_end,
    trim_end_chars, utf8_len, utf8_width_of,
};

verus! {

// ---------------------------------------------------------------------------
// Specifications
// ---------------------------------------------------------------------------

/// The HTML escape of one character.
pub open spec fn escape_char(c: char) -> Seq<char> {
    if c == '&' {
        "&amp;"@
    } else if c == '<' {
        "&lt;"@
    } else if c == '>' {
        "&gt;"@
    } else if c == '"' {
        "&quot;"@
    } else if c == '\'' {
        "&#x27;"@
    } else {
        seq![c]
    }
}

/// The HTML escape of a text: each character escaped in turn.
pub open spec fn escape(s: Seq<char>) -> Seq<char>
    decreases s.len(),
{
    if s.len() == 0 {
        Seq::empty()
    } else {
        escape(s.drop_last()) + escape_char(s.last())
    }
}

/// Inline markup of one escaped line: code, bold, italic, strike-through, then links.
pub open spec fn inline(s: Seq<char>) -> Seq<char> {
    let t0 = escape(s);
    let t1 = regex_replaced(r"`([^`]+)`"@, t0, "<code>$1</code>"@);
    let t2 = regex_replaced(r"\*\*(.+?)\*\*"@, t1, "<strong>$1</strong>"@);
    let t3 = regex_replaced(r"__(.+?)__"@, t2, "<strong>$1</strong>"@);
    let t4 = regex_replaced(r"\*(.+?)\*"@, t3, "<em>$1</em>"@);
    let t5 = regex_replaced(r"\b_(.+?)_\b"@, t4, "<em>$1</em>"@);
    let t6 = regex_replaced(r"~~(.+?)~~"@, t5, "<del>$1</del>"@);
    regex_replaced(r"\[([^\]]+)\]\(([^)]+)\)"@, t6, "<a href=\"$2\">$1</a>"@)
}

/// Bold by the marker that `pattern` finds: the marked text put inside `<strong>`.
pub open spec fn strong_by(pattern: Seq<char>, t: Seq<char>) -> Seq<char> {
    regex_replaced(pattern, t, "<strong>$1</strong>"@)
}

/// Inline code spans of an escaped line put inside `<code>`.
pub open spec fn code_spans(t: Seq<char>) -> Seq<char> {
    regex_replaced(r"`([^`]+)`"@, t, "<code>$1</code>"@)
}

/// The markup applied after bold: italic (`*` and `_`), strike-through, then links.
pub open spec fn markup_after_bold(t: Seq<char>) -> Seq<char> {
    let t4 = regex_replaced(r"\*(.+?)\*"@, t, "<em>$1</em>"@);
    let t5 = regex_replaced(r"\b_(.+?)_\b"@, t4, "<em>$1</em>"@);
    let t6 = regex_replaced(r"~~(.+?)~~"@, t5, "<del>$1</del>"@);
    regex_replaced(r"\[([^\]]+)\]\(([^)]+)\)"@, t6, "<a href=\"$2\">$1</a>"@)
}

/// Bold reads the same whichever marker a line uses: text between `**` and text between
/// `__` are both put inside one `<strong>` element, `**` first, before italic is looked
/// for; neither is taken for italic.
pub proof fn lemma_bold_markers_agree(s: Seq<char>)
    ensures
        inline(s) == markup_after_bold(
            strong_by(r"__(.+?)__"@, strong_by(r"\*\*(.+?)\*\*"@, code_spans(escape(s)))),
        ),
{
}

/// The tag that opens a fenced code block whose fence line carries `lang` after the ticks.
pub open spec fn code_open(lang: Seq<char>) -> Seq<char> {
    if lang.len() > 0 {
        "<pre><code class=\"language-"@ + escape(lang) + "\">"@
    } else {
        "<pre><code>"@
    }
}

/// A heading of the given level around its content.
pub open spec fn heading_html(level: nat, content: Seq<char>) -> Seq<char> {
    "<h"@ + decimal(level) + ">"@ + content + "</h"@ + decimal(level) + ">"@
}

/// The HTML of one line and whether a code block is open after it.
pub open spec fn md_step(line: Seq<char>, in_code: bool) -> (Seq<char>, bool) {
    if starts_with(line, "```"@) {
        if in_code {
            ("</code></pre>"@, false)
        } else {
            (code_open(trim(line.skip(3))), true)
        }
    } else if in_code {
        (escape(line), true)
    } else {
        match regex_capture_pair(r"^(#{1,6})\s+(.+)$"@, line) {
            Some(groups) => (heading_html(groups.0.len(), inline(groups.1)), false),
            None => {
                if regex_finds(r"^---+$"@, false, trim(line)) {
                    ("<hr>"@, false)
                } else if trim(line).len() > 0 {
                    (inline(line) + "<br>"@, false)
                } else {
                    ("<br>"@, false)
                }
            },
        }
    }
}

/// The HTML lines of a sequence of Markdown lines, and whether a code block is left open.
pub open spec fn md_fold(lines: Seq<Seq<char>>) -> (Seq<Seq<char>>, bool)
    decreases lines.len(),
{
    if lines.len() == 0 {
        (Seq::empty(), false)
    } else {
        let (out, in_code) = md_fold(lines.drop_last());
        let (html, next) = md_step(lines.last(), in_code);
        (out.push(html), next)
    }
}

/// Matrix HTML for a Markdown text; a code block left open is closed at the end.
pub open spec fn convert(text: Seq<char>) -> Seq<char> {
    if text.len() == 0 {
        Seq::empty()
    } else {
        let (out, in_code) = md_fold(split(text, '\n'));
        let closed = if in_code {
            out.push("</code></pre>"@)
        } else {
            out
        };
        join(closed, "\n"@)
    }
}

/// `text` without `[button:...]` markers and trailing whitespace.
pub open spec fn without_buttons(text: Seq<char>) -> Seq<char> {
    trim_end(regex_replaced(r"\[button:([^\]]+)\]"@, text, ""@))
}

/// The plain body of some HTML: tags removed, then entities decoded.
pub open spec fn plain_of(html: Seq<char>) -> Seq<char> {
    entities_decoded(regex_replaced(r"<[^>]+>"@, html, ""@))
}

/// The largest body, in bytes counted with one line ending per line, that one chunk takes.
pub open spec fn chunk_limit() -> int {
    60000
}

/// Left fold that groups lines into chunks: finished chunks, the lines of the chunk in
/// progress, and its size in bytes (each line counted with its line ending).
pub open spec fn chunk_state(lines: Seq<Seq<char>>) -> (Seq<Seq<char>>, Seq<Seq<char>>, int)
    decreases lines.len(),
{
    if lines.len() == 0 {
        (Seq::empty(), Seq::empty(), 0)
    } else {
        let (chunks, cur, size) = chunk_state(lines.drop_last());
        let line = lines.last();
        let line_size = (utf8_len(line) + 1) as int;
        if size + line_size > chunk_limit() && cur.len() > 0 {
            (chunks.push(join(cur, "\n"@)), seq![line], line_size)
        } else {
            (chunks, cur.push(line), size + line_size)
        }
    }
}

/// The chunks that a plain body is cut into.
pub open spec fn raw_chunks(plain: Seq<char>) -> Seq<Seq<char>> {
    let (chunks, cur, size) = chunk_state(split(plain, '\n'));
    if cur.len() > 0 {
        chunks.push(join(cur, "\n"@))
    } else {
        chunks
    }
}

// ---------------------------------------------------------------------------
// Implementation
// ---------------------------------------------------------------------------

/// Escapes `&`, `<`, `>`, `"` and `'` for HTML.
pub fn escape_html(text: &Vec<char>) -> (r: Vec<char>)
    ensures
        r@ == escape(text@),
{
    let mut s: Vec<char> = Vec::new();
    let mut i: usize = 0;
    while i < text.len()
        invariant
            i <= text@.len(),
            s@ == escape(text@.take(i as int)),
        decreases text.len() - i,
    {
        assert(text@.take(i + 1).drop_last() == text@.take(i as int));
        let c = text[i];
        if c == '&' {
            append_str(&mut s, "&amp;");
        } else if c == '<' {
            append_str(&mut s, "&lt;");
        } else if c == '>' {
            append_str(&mut s, "&gt;");
        } else if c == '"' {
            append_str(&mut s, "&quot;");
        } else if c == '\'' {
            append_str(&mut s, "&#x27;");
        } else {
            s.push(c);
            assert(s@ == escape(text@.take(i as int)) + seq![c]);
        }
        i = i + 1;
    }
    assert(text@.take(text@.len() as int) == text@);
    s
}

/// One regex substitution over a character vector.
fn replace_all_chars(pattern: &str, text: &Vec<char>, replacement: &str) -> (r: Vec<char>)
    ensures
        r@ == regex_replaced(pattern@, text@, replacement@),
{
    let s = string_of(text);
    let out = regex_replace_all(pattern, s.as_str(), replacement);
    chars_of(out.as_str())
}

/// Inline Markdown of one line, after HTML escaping.
fn inline_format(text: &Vec<char>) -> (r: Vec<char>)
    ensures
        r@ == inline(text@),
{
    let escaped = escape_html(text);
    let t1 = replace_all_chars(r"`([^`]+)`", &escaped, "<code>$1</code>");
    let t2 = replace_all_chars(r"\*\*(.+?)\*\*", &t1, "<strong>$1</strong>");
    let t3 = replace_all_chars(r"__(.+?)__", &t2, "<strong>$1</strong>");
    let t4 = replace_all_chars(r"\*(.+?)\*", &t3, "<em>$1</em>");
    let t5 = replace_all_chars(r"\b_(.+?)_\b", &t4, "<em>$1</em>");
    let t6 = replace_all_chars(r"~~(.+?)~~", &t5, "<del>$1</del>");
    replace_all_chars(r"\[([^\]]+)\]\(([^)]+)\)", &t6, "<a href=\"$2\">$1</a>")
}

/// The HTML of one Markdown line, given whether a code block is open before it.
fn render_line(line: &Vec<char>, in_code: bool) -> (r: (Vec<char>, bool))
    ensures
        (r.0@, r.1) == md_step(line@, in_code),
{
    let mut out: Vec<char> = Vec::new();
    if starts_with_str(line, "```") {
        if in_code {
            append_str(&mut out, "</code></pre>");
            return (out, false);
        }
        proof {
            reveal_strlit("```");
        }
        let rest = slice(line, 3, line.len());
        let lang = trim_chars(&rest);
        if lang.len() > 0 {
            append_str(&mut out, "<pre><code class=\"language-");
            let esc = escape_html(&lang);
            append(&mut out, &esc);
            append_str(&mut out, "\">");
        } else {
            append_str(&mut out, "<pre><code>");
        }
        assert(line@.skip(3) == line@.subrange(3, line@.len() as int));
        return (out, true);
    }
    if in_code {
        return (escape_html(line), true);
    }
    let line_str = string_of(line);
    match regex_captures_two(r"^(#{1,6})\s+(.+)$", line_str.as_str()) {
        Some((hashes, body)) => {
            let level = decimal_u64(chars_of(hashes.as_str()).len() as u64);
            let content = inline_format(&chars_of(body.as_str()));
            append_str(&mut out, "<h");
            append(&mut out, &level);
            append_str(&mut out, ">");
            append(&mut out, &content);
            append_str(&mut out, "</h");
            append(&mut out, &level);
            append_str(&mut out, ">");
            return (out, false);
        },
        None => {},
    }
    let trimmed = trim_chars(line);
    let trimmed_str = string_of(&trimmed);
    if regex_is_match(r"^---+$", false, trimmed_str.as_str()) {
        append_str(&mut out, "<hr>");
    } else if trimmed.len() > 0 {
        out = inline_format(line);
        append_str(&mut out, "<br>");
    } else {
        append_str(&mut out, "<br>");
    }
    (out, false)
}

/// Converts a Markdown text to Matrix HTML.
fn convert_markdown(text: &Vec<char>) -> (r: Vec<char>)
    ensures
        r@ == convert(text@),
{
    if text.len() == 0 {
        return Vec::new();
    }
    let lines = split_chars(text, '\n');
    let mut result: Vec<Vec<char>> = Vec::new();
    let mut in_code = false;
    let mut i: usize = 0;
    while i < lines.len()
        invariant
            i <= lines@.len(),
            seqs(lines@) == split(text@, '\n'),
            (seqs(result@), in_code) == md_fold(seqs(lines@).take(i as int)),
        decreases lines.len() - i,
    {
        assert(seqs(lines@).take(i + 1).drop_last() == seqs(lines@).take(i as int));
        assert(seqs(lines@).take(i + 1).last() == lines@[i as int]@);
        let (html, next) = render_line(&lines[i], in_code);
        result.push(html);
        in_code = next;
        i = i + 1;
    }
    assert(seqs(lines@).take(lines@.len() as int) == seqs(lines@));
    let ghost folded = seqs(result@);
    if in_code {
        let mut close: Vec<char> = Vec::new();
        append_str(&mut close, "</code></pre>");
        result.push(close);
        assert(seqs(result@) == folded.push("</code></pre>"@));
    }
    let mut nl: Vec<char> = Vec::new();
    nl.push('\n');
    assert(nl@ == "\n"@) by {
        reveal_strlit("\n");
    }
    join_chars(&result, &nl)
}

/// Removes `[button:...]` markers and then trailing whitespace.
pub fn strip_button_markers(text: &str) -> (r: String)
    ensures
        r@ == without_buttons(text@),
{
    let replaced = regex_replace_all(r"\[button:([^\]]+)\]", text, "");
    let v = chars_of(replaced.as_str());
    let t = trim_end_chars(&v);
    string_of(&t)
}

/// The plain body of some HTML.
fn strip_html(formatted: &str) -> (r: String)
    ensures
        r@ == plain_of(formatted@),
{
    let text = regex_replace_all(r"<[^>]+>", formatted, "");
    decode_html_entities(text.as_str())
}

/// Converts Markdown to Matrix HTML; returns the plain body and the formatted body.
pub fn markdown_to_matrix_html(text: &str) -> (r: (String, String))
    ensures
        r.1@ == convert(without_buttons(text@)),
        r.0@ == plain_of(convert(without_buttons(text@))),
{
    let cleaned = strip_button_markers(text);
    let cleaned_chars = chars_of(cleaned.as_str());
    let formatted = string_of(&convert_markdown(&cleaned_chars));
    let plain = strip_html(formatted.as_str());
    (plain, formatted)
}

/// Number of UTF-8 bytes of `line` plus one for its line ending, saturating at `usize::MAX`.
fn line_size_of(line: &Vec<char>) -> (r: usize)
    ensures
        r as int == if utf8_len(line@) + 1 > usize::MAX {
            usize::MAX as int
        } else {
            (utf8_len(line@) + 1) as int
        },
{
    let mut total: usize = 1;
    let mut i: usize = 0;
    while i < line.len()
        invariant
            i <= line@.len(),
            total as int == if 1 + utf8_len(line@.take(i as int)) > usize::MAX {
                usize::MAX as int
            } else {
                (1 + utf8_len(line@.take(i as int))) as int
            },
        decreases line.len() - i,
    {
        proof {
            lemma_utf8_len_push(line@.take(i as int), line@[i as int]);
            assert(line@.take(i + 1) == line@.take(i as int).push(line@[i as int]));
        }
        total = total.saturating_add(utf8_width_of(line[i]));
        i = i + 1;
    }
    assert(line@.take(line@.len() as int) == line@);
    total
}

/// Cuts a plain body between lines into chunks of at most 60 000 bytes each.
fn cut_chunks(plain: &Vec<char>) -> (r: Vec<Vec<char>>)
    ensures
        seqs(r@) == raw_chunks(plain@),
{
    let lines = split_chars(plain, '\n');
    let mut chunks: Vec<Vec<char>> = Vec::new();
    let mut cur: Vec<Vec<char>> = Vec::new();
    let mut cur_size: usize = 0;
    let mut nl: Vec<char> = Vec::new();
    nl.push('\n');
    assert(nl@ == "\n"@) by {
        reveal_strlit("\n");
    }
    let mut i: usize = 0;
    while i < lines.len()
        invariant
            i <= lines@.len(),
            nl@ == "\n"@,
            seqs(lines@) == split(plain@, '\n'),
            seqs(chunks@) == chunk_state(seqs(lines@).take(i as int)).0,
            seqs(cur@) == chunk_state(seqs(lines@).take(i as int)).1,
            cur_size as int == if chunk_state(seqs(lines@).take(i as int)).2 > usize::MAX {
                usize::MAX as int
            } else {
                chunk_state(seqs(lines@).take(i as int)).2
            },
            chunk_state(seqs(lines@).take(i as int)).2 >= 0,
        decreases lines.len() - i,
    {
        assert(seqs(lines@).take(i + 1).drop_last() == seqs(lines@).take(i as int));
        assert(seqs(lines@).take(i + 1).last() == lines@[i as int]@);
        let line_size = line_size_of(&lines[i]);
        if cur_size.saturating_add(line_size) > 60000 && cur.len() > 0 {
            chunks.push(join_chars(&cur, &nl));
            cur = Vec::new();
            cur.push(lines[i].clone());
            cur_size = line_size;
            assert(seqs(cur@) == seq![lines@[i as int]@]);
        } else {
            cur.push(lines[i].clone());
            cur_size = cur_size.saturating_add(line_size);
        }
        i = i + 1;
    }
    assert(seqs(lines@).take(lines@.len() as int) == seqs(lines@));
    if cur.len() > 0 {
        chunks.push(join_chars(&cur, &nl));
    }
    chunks
}

/// Splits a plain body into chunks that fit within the Matrix event size limit, each
/// converted to (plain body, formatted body). A body always yields at least one chunk.
pub fn split_text(plain: &str) -> (r: Vec<(String, String)>)
    ensures
        r@.len() == if raw_chunks(plain@).len() == 0 { 1 } else { raw_chunks(plain@).len() },
        raw_chunks(plain@).len() == 0 ==> r@[0].0@.len() == 0 && r@[0].1@.len() == 0,
        forall|i: int|
            0 <= i < raw_chunks(plain@).len() ==> (#[trigger] r@[i]).1@ == convert(
                without_buttons(raw_chunks(plain@)[i]),
            ) && r@[i].0@ == plain_of(convert(without_buttons(raw_chunks(plain@)[i]))),
{
    let pv = chars_of(plain);
    let raw = cut_chunks(&pv);
    let mut out: Vec<(String, String)> = Vec::new();
    if raw.len() == 0 {
        out.push((String::new(), String::new()));
        return out;
    }
    let mut i: usize = 0;
    while i < raw.len()
        invariant
            i <= raw@.len(),
            seqs(raw@) == raw_chunks(plain@),
            out@.len() == i,
            forall|j: int|
                0 <= j < i ==> (#[trigger] out@[j]).1@ == convert(without_buttons(raw@[j]@))
                    && out@[j].0@ == plain_of(convert(without_buttons(raw@[j]@))),
        decreases raw.len() - i,
    {
        let chunk = string_of(&raw[i]);
        out.push(markdown_to_matrix_html(chunk.as_str()));
        i = i + 1;
    }
    out
}

// ---------------------------------------------------------------------------
// Lemmas and laws
// ---------------------------------------------------------------------------

/// Escaped text holds none of the characters that HTML gives a meaning to.
pub proof fn lemma_escape_has_no_markup(s: Seq<char>)
    ensures
        forall|i: int|
            0 <= i < escape(s).len() ==> {
                let c = #[trigger] escape(s)[i];
                c != '<' && c != '>' && c != '"' && c != '\''
            },
    decreases s.len(),
{
    if s.len() > 0 {
        lemma_escape_has_no_markup(s.drop_last());
        let c = s.last();
        reveal_strlit("&amp;");
        reveal_strlit("&lt;");
        reveal_strlit("&gt;");
        reveal_strlit("&quot;");
        reveal_strlit("&#x27;");
        let prev = escape(s.drop_last());
        let tail = escape_char(c);
        assert forall|i: int| 0 <= i < escape(s).len() implies {
            let d = #[trigger] escape(s)[i];
            d != '<' && d != '>' && d != '"' && d != '\''
        } by {
            if i >= prev.len() {
                assert(escape(s)[i] == tail[i - prev.len()]);
            } else {
                assert(escape(s)[i] == prev[i]);
            }
        }
    }
}


/// Grouping keeps every line, in order: the finished chunks and the chunk in progress,
/// joined with line endings, give back all lines joined.
proof fn lemma_chunk_state_joins(lines: Seq<Seq<char>>)
    requires
        lines.len() > 0,
    ensures
        chunk_state(lines).1.len() > 0,
        join(chunk_state(lines).0.push(join(chunk_state(lines).1, "\n"@)), "\n"@) == join(
            lines,
            "\n"@,
        ),
    decreases lines.len(),
{
    let nl = "\n"@;
    let prev = lines.drop_last();
    let l = lines.last();
    lemma_join_push(prev, nl, l);
    assert(prev.push(l) == lines);
    if prev.len() == 0 {
        let (chunks, cur, size) = chunk_state(prev);
        assert(chunks.len() == 0 && cur.len() == 0);
        lemma_join_push(cur, nl, l);
        lemma_join_push(chunks, nl, join(seq![l], nl));
        assert(seq![l] == Seq::<Seq<char>>::empty().push(l));
    } else {
        lemma_chunk_state_joins(prev);
        let (chunks, cur, size) = chunk_state(prev);
        let line_size = (utf8_len(l) + 1) as int;
        if size + line_size > chunk_limit() && cur.len() > 0 {
            let c2 = chunks.push(join(cur, nl));
            lemma_join_push(Seq::<Seq<char>>::empty(), nl, l);
            assert(seq![l] == Seq::<Seq<char>>::empty().push(l));
            lemma_join_push(c2, nl, l);
        } else {
            lemma_join_push(cur, nl, l);
            lemma_join_push(chunks, nl, join(cur, nl));
            lemma_join_push(chunks, nl, join(cur, nl) + nl + l);
            if chunks.len() > 0 {
                assert(join(chunks, nl) + nl + (join(cur, nl) + nl + l) == (join(chunks, nl) + nl
                    + join(cur, nl)) + nl + l);
            }
        }
    }
}

/// Cutting a body into chunks loses nothing: the chunks joined with line endings give the
/// body back.
pub proof fn lemma_chunks_reassemble(plain: Seq<char>)
    ensures
        join(raw_chunks(plain), "\n"@) == plain,
{
    let lines = split(plain, '\n');
    reveal_strlit("\n");
    assert(seq!['\n'] == "\n"@);
    lemma_join_split(plain, '\n');
    lemma_chunk_state_joins(lines);
}


/// How many of the lines are code fences (start with three backticks).
pub open spec fn fence_count(lines: Seq<Seq<char>>) -> nat
    decreases lines.len(),
{
    if lines.len() == 0 {
        0
    } else {
        fence_count(lines.drop_last()) + if starts_with(lines.last(), "```"@) {
            1nat
        } else {
            0nat
        }
    }
}

/// What the line fold gives: one HTML line per Markdown line; fences open and close code
/// blocks in turn; a line inside a block is only escaped; a block is left open exactly when
/// the fences are odd in number.
pub open spec fn md_fold_shaped(lines: Seq<Seq<char>>) -> bool {
    let (out, open) = md_fold(lines);
    &&& out.len() == lines.len()
    &&& open == (fence_count(lines) % 2 == 1)
    &&& forall|i: int|
        #![trigger out[i]]
        0 <= i < lines.len() && starts_with(lines[i], "```"@) ==> out[i] == if fence_count(
            lines.take(i),
        ) % 2 == 0 {
            code_open(trim(lines[i].skip(3)))
        } else {
            "</code></pre>"@
        }
    &&& forall|i: int|
        #![trigger out[i]]
        0 <= i < lines.len() && !starts_with(lines[i], "```"@) && fence_count(lines.take(i)) % 2
            == 1 ==> out[i] == escape(lines[i])
}

proof fn lemma_md_fold_shaped(lines: Seq<Seq<char>>)
    ensures
        md_fold_shaped(lines),
    decreases lines.len(),
{
    if lines.len() > 0 {
        let prev = lines.drop_last();
        lemma_md_fold_shaped(prev);
        let (out0, open0) = md_fold(prev);
        let (out, open) = md_fold(lines);
        let n = prev.len() as int;
        assert(lines.take(n) =~= prev);
        assert forall|i: int| 0 <= i < n implies #[trigger] lines.take(i) == prev.take(i) && lines[i]
            == prev[i] by {
            assert(lines.take(i) =~= prev.take(i));
        }
        assert forall|i: int| 0 <= i < n implies #[trigger] out[i] == out0[i] by {}
    }
}

/// Converting Markdown keeps its lines: each line of a non-empty text gives exactly one
/// line of HTML, and one more closing line follows where a code block is left open. The
/// fences of code blocks open and close them in turn, every block opened is closed, and a
/// line inside a block is only escaped.
pub proof fn lemma_convert_keeps_lines(text: Seq<char>)
    requires
        text.len() > 0,
    ensures
        ({
            let lines = split(text, '\n');
            let (out, open) = md_fold(lines);
            &&& md_fold_shaped(lines)
            &&& convert(text) == join(
                if fence_count(lines) % 2 == 1 {
                    out.push("</code></pre>"@)
                } else {
                    out
                },
                "\n"@,
            )
        }),
{
    lemma_md_fold_shaped(split(text, '\n'));
}

/// A chunk within the size limit (counted with one line ending), or a single line.
pub open spec fn chunk_fits(c: Seq<char>) -> bool {
    utf8_len(c) + 1 <= chunk_limit() || lacks(c, '\n')
}

/// The first line of a text.
pub open spec fn first_line(c: Seq<char>) -> Seq<char> {
    split(c, '\n')[0]
}

/// A chunk that could not also take the first line of the next one.
pub open spec fn chunk_full(c: Seq<char>, next: Seq<char>) -> bool {
    utf8_len(c) + 1 + utf8_len(first_line(next)) + 1 > chunk_limit()
}

/// What the chunk fold keeps true over lines free of line endings.
pub open spec fn chunk_state_good(lines: Seq<Seq<char>>) -> bool {
    let (chunks, cur, size) = chunk_state(lines);
    &&& cur.len() == 0 ==> chunks.len() == 0 && size == 0
    &&& cur.len() > 0 ==> size == utf8_len(join(cur, "\n"@)) + 1
    &&& cur.len() > 0 ==> size <= chunk_limit() || cur.len() == 1
    &&& forall|j: int| 0 <= j < cur.len() ==> lacks(#[trigger] cur[j], '\n')
    &&& forall|k: int| 0 <= k < chunks.len() ==> chunk_fits(#[trigger] chunks[k])
    &&& forall|k: int| #![trigger chunks[k]] 0 <= k < chunks.len() - 1 ==> chunk_full(chunks[k], chunks[k + 1])
    &&& chunks.len() > 0 && cur.len() > 0 ==> utf8_len(chunks.last()) + 1 + utf8_len(cur[0]) + 1
        > chunk_limit()
}

proof fn lemma_chunk_state_good(lines: Seq<Seq<char>>)
    requires
        forall|k: int| 0 <= k < lines.len() ==> lacks(#[trigger] lines[k], '\n'),
    ensures
        chunk_state_good(lines),
    decreases lines.len(),
{
    reveal_strlit("\n");
    let nl = "\n"@;
    assert(nl == seq!['\n']);
    if lines.len() > 0 {
        let prev = lines.drop_last();
        assert forall|k: int| 0 <= k < prev.len() implies lacks(#[trigger] prev[k], '\n') by {
            assert(prev[k] == lines[k]);
        }
        lemma_chunk_state_good(prev);
        let (chunks, cur, size) = chunk_state(prev);
        let line = lines.last();
        assert(lacks(lines[lines.len() - 1], '\n'));
        let line_size = (utf8_len(line) + 1) as int;
        if size + line_size > chunk_limit() && cur.len() > 0 {
            let c = join(cur, nl);
            lemma_split_join_lines(cur);
            assert(first_line(c) == cur[0]);
            if cur.len() == 1 {
                assert(c == cur[0]);
            }
            assert(chunk_fits(c));
            let chunks2 = chunks.push(c);
            assert forall|k: int| 0 <= k < chunks2.len() implies chunk_fits(#[trigger] chunks2[k]) by {
                if k < chunks.len() {
                    assert(chunks2[k] == chunks[k]);
                }
            }
            assert forall|k: int| #![trigger chunks2[k]] 0 <= k < chunks2.len() - 1 implies chunk_full(
                chunks2[k],
                chunks2[k + 1],
            ) by {
                assert(chunks2[k] == chunks[k]);
                if k + 1 < chunks.len() {
                    assert(chunks2[k + 1] == chunks[k + 1]);
                    assert(chunk_full(chunks[k], chunks[k + 1]));
                } else {
                    assert(chunks2[k + 1] == c);
                    assert(chunks[k] == chunks.last());
                }
            }
            assert(join(seq![line], nl) == line);
            assert(chunks2.last() == c);
            assert(seq![line][0] == line);
        } else {
            let cur2 = cur.push(line);
            lemma_join_push(cur, nl, line);
            if cur.len() > 0 {
                lemma_utf8_len_concat(join(cur, nl), nl);
                lemma_utf8_len_concat(join(cur, nl) + nl, line);
                assert(nl.drop_first() == Seq::<char>::empty());
                assert(crate::text::utf8_width('\n') == 1);
                assert(nl[0] == '\n');
                assert(utf8_len(Seq::<char>::empty()) == 0);
                assert(utf8_len(nl) == 1);
                assert(cur2[0] == cur[0]);
            } else {
                assert(cur2 == seq![line]);
            }
            assert forall|j: int| 0 <= j < cur2.len() implies lacks(#[trigger] cur2[j], '\n') by {
                if j < cur.len() {
                    assert(cur2[j] == cur[j]);
                }
            }
        }
    }
}

/// A chunk of more than one line stays within the size limit, and each chunk but the last
/// is full: the first line of the next one would not have fit in it.
pub proof fn lemma_chunks_bounded_and_full(plain: Seq<char>)
    ensures
        forall|k: int| 0 <= k < raw_chunks(plain).len() ==> chunk_fits(#[trigger] raw_chunks(plain)[k]),
        forall|k: int|
            #![trigger raw_chunks(plain)[k]]
            0 <= k < raw_chunks(plain).len() - 1 ==> chunk_full(raw_chunks(plain)[k], raw_chunks(plain)[k + 1]),
{
    reveal_strlit("\n");
    let nl = "\n"@;
    assert(nl == seq!['\n']);
    let lines = split(plain, '\n');
    lemma_split_pieces_lack(plain, '\n');
    lemma_chunk_state_good(lines);
    let (chunks, cur, size) = chunk_state(lines);
    let r = raw_chunks(plain);
    if cur.len() > 0 {
        let c = join(cur, nl);
        lemma_split_join_lines(cur);
        assert(first_line(c) == cur[0]);
        if cur.len() == 1 {
            assert(c == cur[0]);
        }
        assert(chunk_fits(c));
        assert(r == chunks.push(c));
        assert forall|k: int| 0 <= k < r.len() implies chunk_fits(#[trigger] r[k]) by {
            if k < chunks.len() {
                assert(r[k] == chunks[k]);
            }
        }
        assert forall|k: int| #![trigger r[k]] 0 <= k < r.len() - 1 implies chunk_full(r[k], r[k + 1]) by {
            assert(r[k] == chunks[k]);
            if k + 1 < chunks.len() {
                assert(r[k + 1] == chunks[k + 1]);
                assert(chunk_full(chunks[k], chunks[k + 1]));
            } else {
                assert(r[k + 1] == c);
                assert(chunks[k] == chunks.last());
            }
        }
    } else {
        assert(r == chunks);
    }
}

} // verus!
