//! Agent sessions of a chat topic: whether an existing session is reused, what is shown
//! when a fresh one starts, and what is carried over when a topic starts anew.

use vstd::prelude::*;
use crate::handover::{
    add_items, no_decisions_prefix, summary_fields, summary_fold, summary_step, TopicHandoverContext,
};
use crate::text::{
    append, append_str, chars_of, is_ws, join, join_chars, lacks, lemma_join_cons,
    lemma_join_prefix_first, lemma_lines_of_join, lemma_split_after_sep, lemma_split_single,
    lemma_trim_trimmed, lines, seqs, trim_end, trim_start, split, starts_with, starts_with_str, string_of, trim,
    trim_chars, trimmed_nonempty, words, words_chars,
};

verus! {

/// How a message's session is started.
#[derive(Clone, Copy, Debug, PartialEq, Eq)]
pub enum SessionStart {
    /// The recorded session is still usable.
    Reuse,
    /// The recorded session has expired: forget it, then boot a fresh one.
    ResetExpired,
    /// No session is recorded: boot a fresh one.
    Boot,
}

/// The start of a session whose recorded id is `session_id`; `alive` tells whether the
/// agent still runs it. Test sessions (`mock-` ids) are always reused.
pub open spec fn session_start_of(session_id: Seq<char>, alive: bool) -> SessionStart {
    if session_id.len() == 0 {
        SessionStart::Boot
    } else if starts_with(session_id, "mock-"@) || alive {
        SessionStart::Reuse
    } else {
        SessionStart::ResetExpired
    }
}

/// Decides how a message's session is started.
pub fn session_start(session_id: &str, alive: bool) -> (r: SessionStart)
    ensures
        r == session_start_of(session_id@, alive),
{
    if session_id.is_empty() {
        SessionStart::Boot
    } else if starts_with_str(&chars_of(session_id), "mock-") || alive {
        SessionStart::Reuse
    } else {
        SessionStart::ResetExpired
    }
}

/// The reply shown when a fresh session answered its first prompt: the answer, or `None`
/// when it is blank (the caller then shows the localized new-session notice).
pub fn boot_reply(result: &str) -> (r: Option<String>)
    ensures
        trim(result@).len() == 0 ==> r is None,
        trim(result@).len() > 0 ==> (r matches Some(t) && t@ == result@),
{
    if trim_chars(&chars_of(result)).len() == 0 {
        None
    } else {
        Some(result.to_owned())
    }
}

/// The session whose history a topic hands over: the current one, or else the last past
/// one.
pub open spec fn handover_source_of(current: Seq<char>, past: Seq<Seq<char>>) -> Seq<char> {
    if current.len() == 0 && past.len() > 0 {
        past.last()
    } else {
        current
    }
}

/// Chooses the session whose history a topic hands over.
pub fn handover_source(current: &str, past: &Vec<String>) -> (r: String)
    ensures
        r@ == handover_source_of(current@, past@.map_values(|s: String| s@)),
{
    if current.is_empty() && past.len() > 0 {
        past[past.len() - 1].clone()
    } else {
        current.to_owned()
    }
}

/// The summary kept with a session after a handover, read back as the prior summary of
/// the next one.
pub open spec fn handover_summary_of(objective: Seq<char>, decisions: Seq<Seq<char>>, progress: Seq<char>) -> Seq<char> {
    "Objective: "@ + objective + "\nDecisions: "@ + join(decisions, "; "@) + "\nProgress: "@ + progress
}

/// The summary kept after a handover.
pub fn handover_summary(ctx: &TopicHandoverContext) -> (r: String)
    ensures
        r@ == handover_summary_of(
            ctx.topic_objective@,
            ctx.agreed_decisions@.map_values(|s: String| s@),
            ctx.current_progress@,
        ),
{
    let mut decs: Vec<Vec<char>> = Vec::new();
    let mut i: usize = 0;
    while i < ctx.agreed_decisions.len()
        invariant
            i <= ctx.agreed_decisions@.len(),
            seqs(decs@) == ctx.agreed_decisions@.map_values(|s: String| s@).take(i as int),
        decreases ctx.agreed_decisions.len() - i,
    {
        let ghost before = seqs(decs@);
        decs.push(chars_of(ctx.agreed_decisions[i].as_str()));
        assert(seqs(decs@) =~= before.push(ctx.agreed_decisions@[i as int]@));
        assert(seqs(decs@) =~= ctx.agreed_decisions@.map_values(|s: String| s@).take(i + 1));
        i = i + 1;
    }
    assert(ctx.agreed_decisions@.map_values(|s: String| s@).take(i as int) =~= ctx.agreed_decisions@.map_values(
        |s: String| s@,
    ));
    let mut t = chars_of("Objective: ");
    append_str(&mut t, ctx.topic_objective.as_str());
    append_str(&mut t, "\nDecisions: ");
    append(&mut t, &join_chars(&decs, &chars_of("; ")));
    append_str(&mut t, "\nProgress: ");
    append_str(&mut t, ctx.current_progress.as_str());
    string_of(&t)
}

/// The topic named by a `/new` command: its second word, if any.
pub open spec fn named_topic_of(command: Seq<char>) -> Option<Seq<char>> {
    let ws = words(command);
    if ws.len() > 1 {
        Some(ws[1])
    } else {
        None
    }
}

/// Reads the topic named by a `/new` command.
pub fn named_topic(command: &str) -> (r: Option<String>)
    ensures
        r is None <==> named_topic_of(command@) is None,
        r matches Some(n) ==> named_topic_of(command@) == Some(n@),
{
    let ws = words_chars(&chars_of(command));
    proof {
        assert(seqs(ws@).len() == ws@.len());
    }
    if ws.len() > 1 {
        Some(string_of(&ws[1]))
    } else {
        None
    }
}


/// A line that opens a section of a summary.
pub open spec fn heading_line(l: Seq<char>) -> bool {
    starts_with(l, "Objective:"@) || starts_with(l, "Decisions:"@) || starts_with(l, "Progress:"@)
}

/// A decision that a summary carries unchanged: one trimmed, nonempty line without `;`
/// that is not the placeholder recorded when no decision is known.
pub open spec fn carried_decision(d: Seq<char>) -> bool {
    trimmed_nonempty(d) && lacks(d, '\n') && lacks(d, ';') && !starts_with(d, no_decisions_prefix())
}

/// The `Decisions:` line of a summary reads back as the decisions it lists.
proof fn lemma_decisions_read_back(ds: Seq<Seq<char>>)
    requires
        ds.len() > 0,
        forall|k: int| 0 <= k < ds.len() ==> carried_decision(#[trigger] ds[k]),
    ensures
        add_items(Seq::empty(), split(join(ds, "; "@), ';')) == ds,
        trimmed_nonempty(join(ds, "; "@)),
        lacks(join(ds, "; "@), '\n'),
    decreases ds.len(),
{
    reveal_strlit("; ");
    let sep = "; "@;
    assert(sep == seq![';', ' ']);
    assert(carried_decision(ds[ds.len() - 1]));
    if ds.len() == 1 {
        let d = ds[0];
        assert(join(ds, sep) == d);
        lemma_split_single(d, ';');
        lemma_trim_trimmed(d);
        assert(seq![d].drop_last() == Seq::<Seq<char>>::empty());
        assert(add_items(Seq::empty(), Seq::<Seq<char>>::empty()) == Seq::<Seq<char>>::empty());
        assert(seq![d].last() == d);
        assert(trim(d) == d && d.len() > 0 && !starts_with(d, no_decisions_prefix()));
        assert(add_items(Seq::empty(), seq![d]) == Seq::<Seq<char>>::empty().push(d));
        assert(Seq::<Seq<char>>::empty().push(d) == ds);
    } else {
        let front = ds.drop_last();
        assert forall|k: int| 0 <= k < front.len() implies carried_decision(#[trigger] front[k]) by {
            assert(front[k] == ds[k]);
        }
        lemma_decisions_read_back(front);
        let x = join(front, sep);
        let d = ds.last();
        let b = seq![' '] + d;
        assert(join(ds, sep) == x + sep + d);
        assert(join(ds, sep) == x.push(';') + b);
        assert forall|i: int| 0 <= i < b.len() implies b[i] != ';' by {
            if i > 0 {
                assert(b[i] == d[i - 1]);
            }
        }
        lemma_split_after_sep(x, b, ';');
        lemma_trim_trimmed(d);
        let pieces = split(x, ';');
        assert(pieces.push(b).drop_last() == pieces);
        assert(pieces.push(b).last() == b);
        assert(add_items(Seq::empty(), pieces.push(b)) == front.push(d));
        assert(front.push(d) == ds);
        let all = join(ds, sep);
        assert(all[0] == x[0]);
        assert(all.last() == d.last());
        assert(!is_ws(';'));
        assert forall|i: int| 0 <= i < all.len() implies all[i] != '\n' by {
            if i < x.len() {
                assert(all[i] == x[i]);
            } else if i > x.len() + 1 {
                assert(all[i] == d[i - x.len() - 2]);
            }
        }
    }
}

/// Reading on through progress lines after the `Progress:` line appends them.
proof fn lemma_fold_progress(
    pre: Seq<Seq<char>>,
    rest: Seq<Seq<char>>,
    obj: Seq<Seq<char>>,
    decs: Seq<Seq<char>>,
    prog: Seq<Seq<char>>,
)
    requires
        summary_fold(pre) == (3int, obj, decs, prog),
        forall|k: int| 0 <= k < rest.len() ==> trimmed_nonempty(#[trigger] rest[k]) && !heading_line(rest[k]),
    ensures
        summary_fold(pre + rest) == (3int, obj, decs, prog + rest),
    decreases rest.len(),
{
    if rest.len() == 0 {
        assert(pre + rest == pre);
        assert(prog + rest == prog);
    } else {
        let front = rest.drop_last();
        lemma_fold_progress(pre, front, obj, decs, prog);
        assert((pre + rest).drop_last() == pre + front);
        assert((pre + rest).last() == rest.last());
        let l = rest.last();
        assert(trimmed_nonempty(rest[rest.len() - 1]) && !heading_line(rest[rest.len() - 1]));
        lemma_trim_trimmed(l);
        assert((prog + front).push(l) == prog + rest);
    }
}

/// A summary written after a handover reads back as what was handed over: its objective
/// (one trimmed line), its decisions (each one trimmed line without `;`, none the
/// placeholder) and its progress (trimmed lines, none after the first opening a section).
pub proof fn lemma_summary_round_trip(
    objective: Seq<char>,
    decisions: Seq<Seq<char>>,
    progress_lines: Seq<Seq<char>>,
)
    requires
        trimmed_nonempty(objective),
        lacks(objective, '\n'),
        forall|k: int| 0 <= k < decisions.len() ==> carried_decision(#[trigger] decisions[k]),
        progress_lines.len() > 0,
        forall|k: int|
            0 <= k < progress_lines.len() ==> trimmed_nonempty(#[trigger] progress_lines[k]) && lacks(
                progress_lines[k],
                '\n',
            ),
        forall|k: int| 1 <= k < progress_lines.len() ==> !heading_line(#[trigger] progress_lines[k]),
    ensures
        summary_fields(handover_summary_of(objective, decisions, join(progress_lines, "\n"@))) == (
            Some(objective),
            decisions,
            Some(join(progress_lines, "\n"@)),
        ),
{
    reveal_strlit("Objective: ");
    reveal_strlit("\nDecisions: ");
    reveal_strlit("\nProgress: ");
    reveal_strlit("Decisions: ");
    reveal_strlit("Progress: ");
    reveal_strlit("Objective:");
    reveal_strlit("Decisions:");
    reveal_strlit("Progress:");
    reveal_strlit("\n");
    reveal_strlit("; ");
    reveal_strlit(" ");
    let nl = seq!['\n'];
    assert("\n"@ == nl);
    let o = objective;
    let ds = decisions;
    let pls = progress_lines;
    let j = join(ds, "; "@);
    let p = join(pls, nl);
    let l1 = "Objective: "@ + o;
    let l2 = "Decisions: "@ + j;
    let l3 = "Progress: "@ + pls[0];
    let q = pls.update(0, l3);
    let ls = seq![l1] + (seq![l2] + q);

    // The summary is its lines joined with newlines.
    lemma_join_prefix_first("Progress: "@, pls, nl);
    lemma_join_cons(l2, q, nl);
    lemma_join_cons(l1, seq![l2] + q, nl);
    assert("\nDecisions: "@ == nl + "Decisions: "@);
    assert("\nProgress: "@ == nl + "Progress: "@);
    assert(handover_summary_of(o, ds, p) == join(ls, nl));

    // Which lines it has.
    if ds.len() > 0 {
        lemma_decisions_read_back(ds);
    } else {
        assert(j == Seq::<char>::empty());
    }
    assert(trimmed_nonempty(pls[0]) && lacks(pls[0], '\n'));
    assert forall|k: int| 0 <= k < ls.len() implies lacks(#[trigger] ls[k], '\n') && (ls[k].len() == 0
        || ls[k].last() != '\r') by {
        if k == 0 {
            assert(ls[k] == l1);
            assert forall|i: int| 0 <= i < l1.len() implies l1[i] != '\n' by {
                if i >= 11 {
                    assert(l1[i] == o[i - 11]);
                }
            }
            assert(is_ws('\r'));
        } else if k == 1 {
            assert(ls[k] == l2);
            assert forall|i: int| 0 <= i < l2.len() implies l2[i] != '\n' by {
                if i >= 11 {
                    assert(l2[i] == j[i - 11]);
                }
            }
            assert(is_ws('\r'));
        } else if k == 2 {
            assert(ls[k] == l3);
            assert forall|i: int| 0 <= i < l3.len() implies l3[i] != '\n' by {
                if i >= 10 {
                    assert(l3[i] == pls[0][i - 10]);
                }
            }
            assert(is_ws('\r'));
        } else {
            assert(ls[k] == pls[k - 2]);
            assert(trimmed_nonempty(pls[k - 2]) && lacks(pls[k - 2], '\n'));
            assert(is_ws('\r'));
        }
    }
    assert(ls.last() == q.last());
    assert(trimmed_nonempty(pls[pls.len() - 1]));
    lemma_lines_of_join(ls);
    assert(lines(handover_summary_of(o, ds, p)) == ls);

    // Reading the first three lines.
    let init = (0int, Seq::<Seq<char>>::empty(), Seq::<Seq<char>>::empty(), Seq::<Seq<char>>::empty());
    lemma_trim_trimmed(o);
    assert(trimmed_nonempty(l1));
    lemma_trim_trimmed(l1);
    assert(l1.take(10) == "Objective:"@);
    assert(l1.skip(10) == seq![' '] + o);
    let st1 = (1int, seq![o], Seq::<Seq<char>>::empty(), Seq::<Seq<char>>::empty());
    assert(summary_step(init, l1) == st1);
    assert(seq![l1].drop_last() == Seq::<Seq<char>>::empty());
    assert(seq![l1].last() == l1);
    assert(summary_fold(Seq::<Seq<char>>::empty()) == init);
    assert(summary_fold(seq![l1]) == st1);

    let st2 = (2int, seq![o], ds, Seq::<Seq<char>>::empty());
    assert(l2.take(10) == "Decisions:"@);
    assert(l2.take(10)[0] != "Objective:"@[0]);
    if ds.len() > 0 {
        lemma_trim_trimmed(j);
        assert(trimmed_nonempty(l2));
        lemma_trim_trimmed(l2);
        assert(l2.skip(10) == seq![' '] + j);
        assert(summary_step(st1, l2) == st2);
    } else {
        assert(l2 == "Decisions: "@);
        let t = trim(l2);
        assert(l2.drop_last() == "Decisions:"@);
        assert(!is_ws(l2[0]) && is_ws(l2.last()) && !is_ws(l2.drop_last().last()));
        assert(trim_start(l2) == l2);
        assert(trim_end(l2.drop_last()) == l2.drop_last());
        assert(trim_end(l2) == trim_end(l2.drop_last()));
        assert(t == "Decisions:"@);
        assert(t.take(10)[0] != "Objective:"@[0]);
        assert(t.take(10) == "Decisions:"@);
        assert(t.skip(10) == Seq::<char>::empty());
        assert(summary_step(st1, l2) == st2);
    }
    assert(seq![l1, l2].drop_last() == seq![l1]);
    assert(seq![l1, l2].last() == l2);
    assert(summary_fold(seq![l1, l2]) == st2);

    let st3 = (3int, seq![o], ds, seq![pls[0]]);
    lemma_trim_trimmed(pls[0]);
    assert(trimmed_nonempty(l3));
    lemma_trim_trimmed(l3);
    assert(l3.take(10)[0] != "Objective:"@[0]);
    assert(l3.take(10)[0] != "Decisions:"@[0]);
    assert(l3.take(9) == "Progress:"@);
    assert(l3.skip(9) == seq![' '] + pls[0]);
    assert(summary_step(st2, l3) == st3);
    assert(seq![l1, l2, l3].drop_last() == seq![l1, l2]);
    assert(seq![l1, l2, l3].last() == l3);
    assert(summary_fold(seq![l1, l2, l3]) == st3);

    // Reading the remaining progress lines.
    let rest = pls.skip(1);
    assert forall|k: int| 0 <= k < rest.len() implies trimmed_nonempty(#[trigger] rest[k]) && !heading_line(
        rest[k],
    ) by {
        assert(rest[k] == pls[k + 1]);
        assert(trimmed_nonempty(pls[k + 1]));
        assert(!heading_line(pls[k + 1]));
    }
    lemma_fold_progress(seq![l1, l2, l3], rest, seq![o], ds, seq![pls[0]]);
    assert(seq![l1, l2, l3] + rest == ls);
    assert(seq![pls[0]] + rest == pls);
    assert(join(seq![o], " "@) == o);
}

} // verus!
