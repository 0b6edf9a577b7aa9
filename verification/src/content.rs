//! Prompt-injection screening of incoming text.
//!
//! Text is first folded from fullwidth Latin letters and angle brackets to ASCII, then
//! matched case-insensitively against a fixed table of patterns, each with a category.

use vstd::prelude::*;
use crate::patterns::{flag_free, regex_finds, regex_is_match};
use crate::text::{ascii_lower, eq_ignore_ascii_case};

verus! {

/// `c` folded from its fullwidth form: `Ａ`..`Ｚ`, `ａ`..`ｚ`, `＜` and `＞` become ASCII.
pub open spec fn fold_char(c: char) -> char {
    let u = c as u32;
    if (0xFF21 <= u && u <= 0xFF3A) || (0xFF41 <= u && u <= 0xFF5A) {
        ((u - 0xFEE0) as u8) as char
    } else if u == 0xFF1C {
        '<'
    } else if u == 0xFF1E {
        '>'
    } else {
        c
    }
}

/// Every character of `s` folded.
pub open spec fn fold_text(s: Seq<char>) -> Seq<char> {
    s.map_values(|c: char| fold_char(c))
}

/// The screening table: each pattern with the category it reports.
pub open spec fn pattern_table() -> Seq<(Seq<char>, Seq<char>)> {
    seq![
        (r"ignore\s+(all\s+)?(previous|prior|above)\s+(instructions?|prompts?)"@, "instruction_override"@),
        (r"disregard\s+(all\s+)?(previous|prior|above)"@, "instruction_override"@),
        (r"forget\s+(everything|all|your)\s+(instructions?|rules?)"@, "instruction_override"@),
        (r"you\s+are\s+now\s+(a|an)\s+"@, "role_hijack"@),
        (r"new\s+instructions?:"@, "role_hijack"@),
        (r"system\s*:\s*prompt"@, "fake_system_prompt"@),
        (r"<\|(?:im_start|im_end|system|endoftext)\|>"@, "special_token"@),
        (r"\[INST\]|\[/INST\]|<<SYS>>|<</SYS>>"@, "llama_markers"@),
        (r"(?:^|\n)\s*(?:Human|Assistant|System)\s*:"@, "anthropic_markers"@),
        (r"GROUND_RULES|(?:AGENT_)?SOUL\.md|(?:AGENT_)?SYSTEM\.md|BOOTSTRAP\.md|(?:AGENT_)?IDENTITY\.md"@, "internal_file_ref"@),
        (r"mem_add\.py|mem_edit\.py|mem_delete\.py|task_add\.py"@, "tool_injection"@),
        (r"--system-prompt|--append-system-prompt|--permission-mode"@, "cli_flag_injection"@),
        (r"<file:[^>]+>"@, "file_tag_injection"@),
    ]
}

/// The categories, in table order and with repeats, of the first `k` table rows whose
/// pattern matches `text` case-insensitively.
pub open spec fn categories_upto(text: Seq<char>, k: int) -> Seq<Seq<char>>
    decreases k,
{
    if k <= 0 {
        Seq::empty()
    } else {
        let prev = categories_upto(text, k - 1);
        let row = pattern_table()[k - 1];
        if regex_finds(row.0, true, text) {
            prev.push(row.1)
        } else {
            prev
        }
    }
}

/// The categories that screening reports for `text`.
pub open spec fn suspicious_categories(text: Seq<char>) -> Seq<Seq<char>> {
    categories_upto(fold_text(text), pattern_table().len() as int)
}

/// Folds a single character if it is a fullwidth equivalent of an ASCII letter or bracket.
pub fn fold_fullwidth_char(c: char) -> (r: char)
    ensures
        r == fold_char(c),
{
    let code = c as u32;
    if (0xFF21 <= code && code <= 0xFF3A) || (0xFF41 <= code && code <= 0xFF5A) {
        ((code - 0xFEE0) as u8) as char
    } else if code == 0xFF1C {
        '<'
    } else if code == 0xFF1E {
        '>'
    } else {
        c
    }
}

/// Folds every fullwidth letter and angle bracket of `text` to ASCII.
pub fn fold_fullwidth(text: &str) -> (r: String)
    ensures
        r@ == fold_text(text@),
{
    let v = crate::text::chars_of(text);
    let mut out: Vec<char> = Vec::new();
    let mut i: usize = 0;
    while i < v.len()
        invariant
            i <= v@.len(),
            v@ == text@,
            out@ == fold_text(v@.take(i as int)),
        decreases v.len() - i,
    {
        out.push(fold_fullwidth_char(v[i]));
        assert(fold_text(v@.take(i + 1)) == fold_text(v@.take(i as int)).push(fold_char(v@[i as int])));
        i = i + 1;
    }
    assert(v@.take(v@.len() as int) == v@);
    crate::text::string_of(&out)
}

/// The screening table as executable pairs of (pattern, category).
fn pattern_rows() -> (r: Vec<(&'static str, &'static str)>)
    ensures
        r@.len() == pattern_table().len(),
        forall|i: int|
            0 <= i < r@.len() ==> (#[trigger] r@[i]).0@ == pattern_table()[i].0 && r@[i].1@
                == pattern_table()[i].1,
{
    let mut r: Vec<(&'static str, &'static str)> = Vec::new();
    r.push((r"ignore\s+(all\s+)?(previous|prior|above)\s+(instructions?|prompts?)", "instruction_override"));
    r.push((r"disregard\s+(all\s+)?(previous|prior|above)", "instruction_override"));
    r.push((r"forget\s+(everything|all|your)\s+(instructions?|rules?)", "instruction_override"));
    r.push((r"you\s+are\s+now\s+(a|an)\s+", "role_hijack"));
    r.push((r"new\s+instructions?:", "role_hijack"));
    r.push((r"system\s*:\s*prompt", "fake_system_prompt"));
    r.push((r"<\|(?:im_start|im_end|system|endoftext)\|>", "special_token"));
    r.push((r"\[INST\]|\[/INST\]|<<SYS>>|<</SYS>>", "llama_markers"));
    r.push((r"(?:^|\n)\s*(?:Human|Assistant|System)\s*:", "anthropic_markers"));
    r.push((r"GROUND_RULES|(?:AGENT_)?SOUL\.md|(?:AGENT_)?SYSTEM\.md|BOOTSTRAP\.md|(?:AGENT_)?IDENTITY\.md", "internal_file_ref"));
    r.push((r"mem_add\.py|mem_edit\.py|mem_delete\.py|task_add\.py", "tool_injection"));
    r.push((r"--system-prompt|--append-system-prompt|--permission-mode", "cli_flag_injection"));
    r.push((r"<file:[^>]+>", "file_tag_injection"));
    r
}

/// The categories of the table rows marked as matching among the first `k`, in table order.
pub open spec fn marked_categories(marks: Seq<bool>, k: int) -> Seq<Seq<char>>
    decreases k,
{
    if k <= 0 {
        Seq::empty()
    } else {
        let prev = marked_categories(marks, k - 1);
        if marks[k - 1] {
            prev.push(pattern_table()[k - 1].1)
        } else {
            prev
        }
    }
}

/// The categories reported when `marks[i]` tells whether row `i` of the screening table
/// matched.
pub fn categories_of(marks: &Vec<bool>) -> (r: Vec<String>)
    requires
        marks@.len() == pattern_table().len(),
    ensures
        r@.map_values(|s: String| s@) == marked_categories(marks@, pattern_table().len() as int),
{
    let rows = pattern_rows();
    let mut out: Vec<String> = Vec::new();
    let mut i: usize = 0;
    while i < rows.len()
        invariant
            i <= rows@.len(),
            rows@.len() == pattern_table().len(),
            marks@.len() == pattern_table().len(),
            forall|j: int|
                0 <= j < rows@.len() ==> (#[trigger] rows@[j]).0@ == pattern_table()[j].0
                    && rows@[j].1@ == pattern_table()[j].1,
            out@.map_values(|s: String| s@) == marked_categories(marks@, i as int),
        decreases rows.len() - i,
    {
        if marks[i] {
            let ghost before = out@;
            out.push(rows[i].1.to_owned());
            assert(out@.map_values(|s: String| s@) == before.map_values(|s: String| s@).push(
                rows@[i as int].1@,
            ));
        }
        i = i + 1;
    }
    out
}

proof fn lemma_marks_match(marks: Seq<bool>, text: Seq<char>, k: int)
    requires
        0 <= k <= marks.len(),
        k <= pattern_table().len(),
        forall|j: int| 0 <= j < k ==> marks[j] == regex_finds(#[trigger] pattern_table()[j].0, true, text),
    ensures
        marked_categories(marks, k) == categories_upto(text, k),
    decreases k,
{
    if k > 0 {
        lemma_marks_match(marks, text, k - 1);
        assert(marks[k - 1] == regex_finds(pattern_table()[k - 1].0, true, text));
    }
}

/// No pattern of the table holds an inline flag.
proof fn lemma_table_flag_free()
    ensures
        forall|k: int| 0 <= k < pattern_table().len() ==> flag_free(#[trigger] pattern_table()[k].0),
{
    reveal_strlit(r"ignore\s+(all\s+)?(previous|prior|above)\s+(instructions?|prompts?)");
    reveal_strlit(r"disregard\s+(all\s+)?(previous|prior|above)");
    reveal_strlit(r"forget\s+(everything|all|your)\s+(instructions?|rules?)");
    reveal_strlit(r"you\s+are\s+now\s+(a|an)\s+");
    reveal_strlit(r"new\s+instructions?:");
    reveal_strlit(r"system\s*:\s*prompt");
    reveal_strlit(r"<\|(?:im_start|im_end|system|endoftext)\|>");
    reveal_strlit(r"\[INST\]|\[/INST\]|<<SYS>>|<</SYS>>");
    reveal_strlit(r"(?:^|\n)\s*(?:Human|Assistant|System)\s*:");
    reveal_strlit(r"GROUND_RULES|(?:AGENT_)?SOUL\.md|(?:AGENT_)?SYSTEM\.md|BOOTSTRAP\.md|(?:AGENT_)?IDENTITY\.md");
    reveal_strlit(r"mem_add\.py|mem_edit\.py|mem_delete\.py|task_add\.py");
    reveal_strlit(r"--system-prompt|--append-system-prompt|--permission-mode");
    reveal_strlit(r"<file:[^>]+>");
    assert(flag_free(r"ignore\s+(all\s+)?(previous|prior|above)\s+(instructions?|prompts?)"@));
    assert(flag_free(r"disregard\s+(all\s+)?(previous|prior|above)"@));
    assert(flag_free(r"forget\s+(everything|all|your)\s+(instructions?|rules?)"@));
    assert(flag_free(r"you\s+are\s+now\s+(a|an)\s+"@));
    assert(flag_free(r"new\s+instructions?:"@));
    assert(flag_free(r"system\s*:\s*prompt"@));
    assert(flag_free(r"<\|(?:im_start|im_end|system|endoftext)\|>"@));
    assert(flag_free(r"\[INST\]|\[/INST\]|<<SYS>>|<</SYS>>"@));
    assert(flag_free(r"(?:^|\n)\s*(?:Human|Assistant|System)\s*:"@));
    assert(flag_free(r"GROUND_RULES|(?:AGENT_)?SOUL\.md|(?:AGENT_)?SYSTEM\.md|BOOTSTRAP\.md|(?:AGENT_)?IDENTITY\.md"@));
    assert(flag_free(r"mem_add\.py|mem_edit\.py|mem_delete\.py|task_add\.py"@));
    assert(flag_free(r"--system-prompt|--append-system-prompt|--permission-mode"@));
    assert(flag_free(r"<file:[^>]+>"@));
}

/// Folding keeps two texts equal up to ASCII case.
proof fn lemma_fold_keeps_case_equality(s: Seq<char>, t: Seq<char>)
    requires
        eq_ignore_ascii_case(s, t),
    ensures
        eq_ignore_ascii_case(fold_text(s), fold_text(t)),
{
    assert forall|i: int| 0 <= i < fold_text(s).len() implies ascii_lower(fold_text(s)[i]) == ascii_lower(
        fold_text(t)[i],
    ) by {
        let a = s[i];
        let b = t[i];
        assert(ascii_lower(a) == ascii_lower(b));
        if a != b {
            assert(('A' <= a && a <= 'Z') || ('A' <= b && b <= 'Z'));
        }
    }
}

/// Scans text for prompt-injection patterns; an empty vector means the text is clean.
/// Each matching table row contributes its category once, in table order.
pub fn detect_suspicious_patterns(text: &str) -> (r: Vec<String>)
    ensures
        r@.map_values(|s: String| s@) == suspicious_categories(text@),
        forall|other: Seq<char>|
            eq_ignore_ascii_case(text@, other) ==> r@.map_values(|s: String| s@) == #[trigger] suspicious_categories(
                other,
            ),
{
    proof {
        lemma_table_flag_free();
    }
    let folded = fold_fullwidth(text);
    let rows = pattern_rows();
    let mut marks: Vec<bool> = Vec::new();
    let mut i: usize = 0;
    while i < rows.len()
        invariant
            i <= rows@.len(),
            marks@.len() == i,
            rows@.len() == pattern_table().len(),
            forall|j: int|
                0 <= j < rows@.len() ==> (#[trigger] rows@[j]).0@ == pattern_table()[j].0
                    && rows@[j].1@ == pattern_table()[j].1,
            forall|j: int| 0 <= j < i ==> marks@[j] == regex_finds(#[trigger] pattern_table()[j].0, true, folded@),
            forall|k: int| 0 <= k < pattern_table().len() ==> flag_free(#[trigger] pattern_table()[k].0),
            forall|j: int, other: Seq<char>|
                0 <= j < i && eq_ignore_ascii_case(folded@, other) ==> marks@[j] == #[trigger] regex_finds(
                    pattern_table()[j].0,
                    true,
                    other,
                ),
        decreases rows.len() - i,
    {
        let (pat, _cat) = rows[i];
        assert(flag_free(pattern_table()[i as int].0));
        let m = regex_is_match(pat, true, folded.as_str());
        marks.push(m);
        i = i + 1;
    }
    proof {
        lemma_marks_match(marks@, folded@, pattern_table().len() as int);
        assert forall|other: Seq<char>| eq_ignore_ascii_case(text@, other) implies marked_categories(
            marks@,
            pattern_table().len() as int,
        ) == #[trigger] suspicious_categories(other) by {
            lemma_fold_keeps_case_equality(text@, other);
            assert forall|j: int| 0 <= j < pattern_table().len() implies marks@[j] == regex_finds(
                #[trigger] pattern_table()[j].0,
                true,
                fold_text(other),
            ) by {
                assert(marks@[j] == regex_finds(pattern_table()[j].0, true, fold_text(other)));
            }
            lemma_marks_match(marks@, fold_text(other), pattern_table().len() as int);
        }
    }
    categories_of(&marks)
}

/// Folding is idempotent: a folded text folds to itself.
pub proof fn lemma_fold_idempotent(s: Seq<char>)
    ensures
        fold_text(fold_text(s)) == fold_text(s),
{
    assert forall|i: int| 0 <= i < s.len() implies fold_char(fold_char(#[trigger] s[i])) == fold_char(
        s[i],
    ) by {
        let c = s[i];
        let u = c as u32;
        if (0xFF21 <= u && u <= 0xFF3A) || (0xFF41 <= u && u <= 0xFF5A) {
            let b = (u - 0xFEE0) as u8;
            assert((b as char) as u32 == b as u32);
        }
    }
    assert(fold_text(fold_text(s)) =~= fold_text(s));
}

/// Folding keeps the length of the text and changes only fullwidth letters and brackets.
pub proof fn lemma_fold_preserves_other_chars(s: Seq<char>, i: int)
    requires
        0 <= i < s.len(),
        !((0xFF21 <= s[i] as u32 && s[i] as u32 <= 0xFF3A) || (0xFF41 <= s[i] as u32 && s[i] as u32
            <= 0xFF5A) || s[i] as u32 == 0xFF1C || s[i] as u32 == 0xFF1E),
    ensures
        fold_text(s).len() == s.len(),
        fold_text(s)[i] == s[i],
{
}

} // verus!
