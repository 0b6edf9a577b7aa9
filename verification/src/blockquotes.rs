//! Grouping of escaped Markdown quote lines into Telegram HTML blockquotes.
//!
//! Consecutive lines starting with `&gt; ` (or `&gt;! ` for an expandable quote) become one
//! `<blockquote>` element holding those lines without their markers.

use vstd::prelude::*;
use crate::text::{
    chars_of, string_of, append, append_str, join, join_chars, lemma_join_split, seqs, slice, split,
    split_chars, starts_with, starts_with_str,
};

verus! {

/// Whether a line is a quote line, plain or expandable.
pub open spec fn is_quote_line(line: Seq<char>) -> bool {
    starts_with(line, "&gt; "@) || starts_with(line, "&gt;! "@)
}

/// The HTML of a finished quote made of the given lines.
pub open spec fn quote_block(lines: Seq<Seq<char>>, expandable: bool) -> Seq<char> {
    (if expandable {
        "<blockquote expandable>"@
    } else {
        "<blockquote>"@
    }) + join(lines, "\n"@) + "</blockquote>"@
}

/// Left fold over lines: output lines, quote lines waiting, and whether the waiting quote
/// is expandable.
pub open spec fn quote_state(lines: Seq<Seq<char>>) -> (Seq<Seq<char>>, Seq<Seq<char>>, bool)
    decreases lines.len(),
{
    if lines.len() == 0 {
        (Seq::empty(), Seq::empty(), false)
    } else {
        let (out, buf, exp) = quote_state(lines.drop_last());
        let line = lines.last();
        if starts_with(line, "&gt;! "@) {
            (out, buf.push(line.skip(6)), true)
        } else if starts_with(line, "&gt; "@) {
            (out, buf.push(line.skip(5)), exp)
        } else if buf.len() > 0 {
            (out.push(quote_block(buf, exp)).push(line), Seq::empty(), false)
        } else {
            (out.push(line), Seq::empty(), false)
        }
    }
}

/// The text with its quote runs converted to blockquote elements.
pub open spec fn quoted(text: Seq<char>) -> Seq<char> {
    let (out, buf, exp) = quote_state(split(text, '\n'));
    let done = if buf.len() > 0 {
        out.push(quote_block(buf, exp))
    } else {
        out
    };
    join(done, "\n"@)
}

/// The HTML of a finished quote.
fn render_quote(buf: &Vec<Vec<char>>, expandable: bool, nl: &Vec<char>) -> (r: Vec<char>)
    requires
        nl@ == "\n"@,
    ensures
        r@ == quote_block(seqs(buf@), expandable),
{
    let mut r: Vec<char> = Vec::new();
    if expandable {
        append_str(&mut r, "<blockquote expandable>");
    } else {
        append_str(&mut r, "<blockquote>");
    }
    let body = join_chars(buf, nl);
    append(&mut r, &body);
    append_str(&mut r, "</blockquote>");
    r
}

/// Converts runs of escaped quote lines (`&gt; `, `&gt;! `) into blockquote elements.
pub fn convert_blockquotes(text: &str) -> (r: String)
    ensures
        r@ == quoted(text@),
{
    let v = chars_of(text);
    let out = convert_quote_lines(&v);
    string_of(&out)
}

/// `convert_blockquotes` over characters.
fn convert_quote_lines(text: &Vec<char>) -> (r: Vec<char>)
    ensures
        r@ == quoted(text@),
{
    let lines = split_chars(text, '\n');
    let mut nl: Vec<char> = Vec::new();
    nl.push('\n');
    assert(nl@ == "\n"@) by {
        reveal_strlit("\n");
    }
    proof {
        reveal_strlit("&gt; ");
        reveal_strlit("&gt;! ");
    }
    let mut result: Vec<Vec<char>> = Vec::new();
    let mut quote_buf: Vec<Vec<char>> = Vec::new();
    let mut is_expandable = false;
    let mut i: usize = 0;
    while i < lines.len()
        invariant
            i <= lines@.len(),
            nl@ == "\n"@,
            "&gt; "@.len() == 5,
            "&gt;! "@.len() == 6,
            seqs(lines@) == split(text@, '\n'),
            (seqs(result@), seqs(quote_buf@), is_expandable) == quote_state(
                seqs(lines@).take(i as int),
            ),
        decreases lines.len() - i,
    {
        assert(seqs(lines@).take(i + 1).drop_last() == seqs(lines@).take(i as int));
        assert(seqs(lines@).take(i + 1).last() == lines@[i as int]@);
        let line = &lines[i];
        if starts_with_str(line, "&gt;! ") {
            is_expandable = true;
            quote_buf.push(slice(line, 6, line.len()));
            assert(line@.skip(6) == line@.subrange(6, line@.len() as int));
        } else if starts_with_str(line, "&gt; ") {
            quote_buf.push(slice(line, 5, line.len()));
            assert(line@.skip(5) == line@.subrange(5, line@.len() as int));
        } else {
            if quote_buf.len() > 0 {
                result.push(render_quote(&quote_buf, is_expandable, &nl));
                quote_buf = Vec::new();
                is_expandable = false;
            }
            result.push(line.clone());
        }
        i = i + 1;
    }
    assert(seqs(lines@).take(lines@.len() as int) == seqs(lines@));
    let ghost folded = seqs(result@);
    if quote_buf.len() > 0 {
        result.push(render_quote(&quote_buf, is_expandable, &nl));
        assert(seqs(result@) == folded.push(quote_block(seqs(quote_buf@), is_expandable)));
    }
    join_chars(&result, &nl)
}

/// While no line is a quote line, the fold copies lines unchanged and holds nothing back.
proof fn lemma_no_quotes_fold(lines: Seq<Seq<char>>)
    requires
        forall|i: int| 0 <= i < lines.len() ==> !is_quote_line(#[trigger] lines[i]),
    ensures
        quote_state(lines) == (lines, Seq::<Seq<char>>::empty(), false),
    decreases lines.len(),
{
    if lines.len() > 0 {
        let prev = lines.drop_last();
        assert forall|i: int| 0 <= i < prev.len() implies !is_quote_line(#[trigger] prev[i]) by {
            assert(prev[i] == lines[i]);
        }
        lemma_no_quotes_fold(prev);
        assert(!is_quote_line(lines[lines.len() - 1]));
        assert(prev.push(lines.last()) == lines);
    }
}

/// Text without quote lines passes through unchanged.
pub proof fn lemma_text_without_quotes_unchanged(text: Seq<char>)
    requires
        forall|i: int|
            0 <= i < split(text, '\n').len() ==> !is_quote_line(#[trigger] split(text, '\n')[i]),
    ensures
        quoted(text) == text,
{
    lemma_no_quotes_fold(split(text, '\n'));
    lemma_join_split(text, '\n');
    reveal_strlit("\n");
    assert(seq!['\n'] == "\n"@);
}

} // verus!
