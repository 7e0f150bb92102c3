//! The line-at-a-time reader reports exactly the records of the grammar.
use vstd::prelude::*;

use crate::grammar::{
    add_content, content_lines, header_end, lemma_header_end_bounds, lemma_section_end_bounds, parse_from,
    section_end,
};
use crate::line::{is_sentinel, star_line};
use crate::parser::{emitted, is_terminal, run_from, transition, EventView, Phase, StepView};
use crate::record::{tactic_record, TacticView};

verus! {

/// A line that completes no record leaves the records still to come unchanged.
proof fn lemma_run_quiet(p: Phase, lines: Seq<Seq<char>>, k: int)
    requires
        0 <= k < lines.len(),
        !is_terminal(p),
        transition(p, EventView::Line(lines[k])).1 is NeedLine,
    ensures
        run_from(p, lines, k) == run_from(transition(p, EventView::Line(lines[k])).0, lines, k + 1),
{
    let rest = run_from(transition(p, EventView::Line(lines[k])).0, lines, k + 1);
    assert(emitted(StepView::NeedLine) + rest =~= rest);
}

/// Reading a header block: the reader reaches the sentinel that ends it and
/// then skips the block or starts the previous tactics, by the number of
/// header lines; the stream ends only if the input ends first.
proof fn lemma_run_header(lines: Seq<Seq<char>>, k: int, seen: nat)
    requires
        0 <= k <= lines.len(),
    ensures
        ({
            let h = header_end(lines, k);
            let n = seen + (h - k);
            run_from(Phase::Header { seen }, lines, k) == if h >= lines.len() {
                Seq::empty()
            } else if n <= 1 {
                run_from(Phase::Header { seen: 0 }, lines, h + 1)
            } else {
                run_from(Phase::PrevTactics { prev: Seq::empty() }, lines, h + 1)
            }
        }),
    decreases lines.len() - k,
{
    lemma_header_end_bounds(lines, k);
    if k < lines.len() {
        lemma_run_quiet(Phase::Header { seen }, lines, k);
    }
    if k < lines.len() && !is_sentinel(lines[k]) {
        let next: nat = if seen < 2 { seen + 1 } else { 2 };
        lemma_run_header(lines, k + 1, next);
    }
}

/// Extending a section by one line adds that line's content.
proof fn lemma_content_step(lines: Seq<Seq<char>>, s: int, k: int)
    requires
        0 <= s <= k < lines.len(),
    ensures
        content_lines(lines.subrange(s, k + 1)) == add_content(
            content_lines(lines.subrange(s, k)),
            lines[k],
        ),
{
    assert(lines.subrange(s, k + 1).drop_last() =~= lines.subrange(s, k));
}

/// Reading the previous tactics up to the star line that ends them.
proof fn lemma_run_prev(lines: Seq<Seq<char>>, s: int, k: int)
    requires
        0 <= s <= k <= lines.len(),
    ensures
        ({
            let p = section_end(lines, k);
            run_from(Phase::PrevTactics { prev: content_lines(lines.subrange(s, k)) }, lines, k)
                == if p >= lines.len() {
                Seq::empty()
            } else {
                run_from(
                    Phase::Hypotheses {
                        prev: content_lines(lines.subrange(s, p)),
                        hyps: Seq::empty(),
                    },
                    lines,
                    p + 1,
                )
            }
        }),
    decreases lines.len() - k,
{
    if k < lines.len() {
        lemma_run_quiet(Phase::PrevTactics { prev: content_lines(lines.subrange(s, k)) }, lines, k);
    }
    if k < lines.len() && lines[k] != star_line() {
        lemma_content_step(lines, s, k);
        lemma_run_prev(lines, s, k + 1);
    }
}

/// Reading the hypotheses up to the star line that ends them.
proof fn lemma_run_hyps(lines: Seq<Seq<char>>, prev: Seq<Seq<char>>, s: int, k: int)
    requires
        0 <= s <= k <= lines.len(),
    ensures
        ({
            let q = section_end(lines, k);
            run_from(Phase::Hypotheses { prev, hyps: content_lines(lines.subrange(s, k)) }, lines, k)
                == if q >= lines.len() {
                Seq::empty()
            } else {
                run_from(
                    Phase::Goal { prev, hyps: content_lines(lines.subrange(s, q)) },
                    lines,
                    q + 1,
                )
            }
        }),
    decreases lines.len() - k,
{
    if k < lines.len() {
        lemma_run_quiet(
            Phase::Hypotheses { prev, hyps: content_lines(lines.subrange(s, k)) },
            lines,
            k,
        );
    }
    if k < lines.len() && lines[k] != star_line() {
        lemma_content_step(lines, s, k);
        lemma_run_hyps(lines, prev, s, k + 1);
    }
}

/// Reading the goal, the separator and the tactic.
proof fn lemma_run_goal(lines: Seq<Seq<char>>, prev: Seq<Seq<char>>, hyps: Seq<Seq<char>>, k: int)
    requires
        0 <= k <= lines.len(),
    ensures
        run_from(Phase::Goal { prev, hyps }, lines, k) == if k + 2 >= lines.len() {
            Seq::empty()
        } else {
            seq![tactic_record(prev, hyps, lines[k], lines[k + 2])] + run_from(
                Phase::Header { seen: 0 },
                lines,
                k + 3,
            )
        },
{
    if k < lines.len() {
        let goal = lines[k];
        lemma_run_quiet(Phase::Goal { prev, hyps }, lines, k);
        if k + 1 < lines.len() {
            lemma_run_quiet(Phase::Separator { prev, hyps, goal }, lines, k + 1);
        }
    }
}

/// A reader that starts a header block at line `i`, handed the remaining
/// lines one at a time and then the end of input, reports exactly
/// `parse_from(lines, i)`.
pub proof fn lemma_run_matches_parse(lines: Seq<Seq<char>>, i: int)
    requires
        0 <= i <= lines.len(),
    ensures
        run_from(Phase::Header { seen: 0 }, lines, i) == parse_from(lines, i),
    decreases lines.len() - i,
{
    if i < lines.len() {
        lemma_header_end_bounds(lines, i);
        lemma_run_header(lines, i, 0);
        let h = header_end(lines, i);
        if h < lines.len() {
            if h <= i + 1 {
                lemma_run_matches_parse(lines, h + 1);
            } else {
                assert(lines.subrange(h + 1, h + 1) =~= Seq::empty());
                lemma_run_prev(lines, h + 1, h + 1);
                lemma_section_end_bounds(lines, h + 1);
                let p = section_end(lines, h + 1);
                if p < lines.len() {
                    let prev = content_lines(lines.subrange(h + 1, p));
                    assert(lines.subrange(p + 1, p + 1) =~= Seq::empty());
                    lemma_run_hyps(lines, prev, p + 1, p + 1);
                    lemma_section_end_bounds(lines, p + 1);
                    let q = section_end(lines, p + 1);
                    if q < lines.len() {
                        let hyps = content_lines(lines.subrange(p + 1, q));
                        lemma_run_goal(lines, prev, hyps, q + 1);
                        if q + 3 < lines.len() {
                            lemma_run_matches_parse(lines, q + 4);
                        }
                    }
                }
            }
        }
    }
}

} // verus!
