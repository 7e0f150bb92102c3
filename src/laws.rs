//! General properties of the record grammar.
//!
//! [`crate::reader::read_records`] returns `parse_from(lines, 0)`, and
//! [`crate::refinement::lemma_run_matches_parse`] shows that the line-at-a-time
//! reader reports the same records, so what is proved here of `parse_from`
//! holds of both.
use vstd::prelude::*;

use crate::grammar::{
    content_lines, header_end, lemma_header_end_bounds, lemma_section_end_bounds,
    parse_from, section_end,
};
use crate::line::{is_blank, is_sentinel, star_line};
use crate::record::{tactic_record, TacticView};

verus! {

/// A header block of a single line yields no record, and reading goes on
/// after its sentinel as if the block had not been there.
pub proof fn lemma_single_line_header_skipped(lines: Seq<Seq<char>>, i: int)
    requires
        0 <= i,
        i + 1 < lines.len(),
        !is_sentinel(lines[i]),
        is_sentinel(lines[i + 1]),
    ensures
        parse_from(lines, i) == parse_from(lines, i + 2),
{
    assert(header_end(lines, i + 1) == i + 1);
    assert(header_end(lines, i) == i + 1);
}

/// An empty header block yields no record and does not end the stream:
/// reading goes on after its sentinel.
pub proof fn lemma_empty_header_skipped(lines: Seq<Seq<char>>, i: int)
    requires
        0 <= i < lines.len(),
        is_sentinel(lines[i]),
    ensures
        parse_from(lines, i) == parse_from(lines, i + 1),
{
    assert(header_end(lines, i) == i);
}

/// The non-blank lines of a sequence contain no blank line, and no line
/// that the sequence does not contain.
pub proof fn lemma_content_lines_not_blank(s: Seq<Seq<char>>)
    ensures
        forall|m: int|
            0 <= m < content_lines(s).len() ==> !is_blank(#[trigger] content_lines(s)[m])
                && s.contains(content_lines(s)[m]),
    decreases s.len(),
{
    if s.len() > 0 {
        let before = content_lines(s.drop_last());
        lemma_content_lines_not_blank(s.drop_last());
        assert forall|m: int| 0 <= m < content_lines(s).len() implies !is_blank(
            #[trigger] content_lines(s)[m],
        ) && s.contains(content_lines(s)[m]) by {
            if m < before.len() {
                assert(content_lines(s)[m] == before[m]);
                let j = choose|j: int| 0 <= j < s.drop_last().len() && s.drop_last()[j] == before[m];
                assert(s[j] == before[m]);
            } else {
                assert(content_lines(s)[m] == s[s.len() - 1]);
            }
        }
    }
}

/// No record read holds a blank line or a star line among its previous
/// tactics or its hypotheses.
pub proof fn lemma_sections_not_blank(lines: Seq<Seq<char>>, i: int)
    requires
        0 <= i <= lines.len(),
    ensures
        forall|k: int, m: int|
            0 <= k < parse_from(lines, i).len() && 0 <= m < parse_from(lines, i)[k].prev_tactics.len()
                ==> !is_blank(#[trigger] parse_from(lines, i)[k].prev_tactics[m])
                && parse_from(lines, i)[k].prev_tactics[m] != star_line(),
        forall|k: int, m: int|
            0 <= k < parse_from(lines, i).len() && 0 <= m < parse_from(lines, i)[k].hypotheses.len()
                ==> !is_blank(#[trigger] parse_from(lines, i)[k].hypotheses[m])
                && parse_from(lines, i)[k].hypotheses[m] != star_line(),
    decreases lines.len() - i,
{
    let recs = parse_from(lines, i);
    if i < lines.len() {
        lemma_header_end_bounds(lines, i);
        let h = header_end(lines, i);
        if h < lines.len() {
            if h <= i + 1 {
                lemma_sections_not_blank(lines, h + 1);
                assert(recs == parse_from(lines, h + 1));
            } else {
                lemma_section_end_bounds(lines, h + 1);
                let p = section_end(lines, h + 1);
                if p < lines.len() {
                    lemma_section_end_bounds(lines, p + 1);
                }
                let q = section_end(lines, p + 1);
                if q + 3 < lines.len() {
                    lemma_sections_not_blank(lines, q + 4);
                    lemma_content_lines_not_blank(lines.subrange(h + 1, p));
                    lemma_content_lines_not_blank(lines.subrange(p + 1, q));
                    assert(!lines.subrange(h + 1, p).contains(star_line()));
                    assert(!lines.subrange(p + 1, q).contains(star_line()));
                    let rest = parse_from(lines, q + 4);
                    let first = tactic_record(
                        content_lines(lines.subrange(h + 1, p)),
                        content_lines(lines.subrange(p + 1, q)),
                        lines[q + 1],
                        lines[q + 3],
                    );
                    assert(recs == seq![first] + rest);
                    assert forall|k: int| 1 <= k < recs.len() implies recs[k] == rest[k - 1] by {}
                    assert(recs[0] == first);
                }
            }
        }
    }
}

/// The goal of `t` is line `j`, which follows a star line, and its tactic is
/// line `j + 2`.
pub open spec fn goal_and_tactic_at(lines: Seq<Seq<char>>, j: int, t: TacticView) -> bool {
    0 < j && j + 2 < lines.len() && lines[j - 1] == star_line() && t.goal == lines[j] && t.tactic
        == lines[j + 2]
}

/// The goal and tactic of `t` are lines of `lines` that lie after line `i`.
pub open spec fn taken_after(lines: Seq<Seq<char>>, i: int, t: TacticView) -> bool {
    exists|j: int| i < j && #[trigger] goal_and_tactic_at(lines, j, t)
}

/// Every record's goal and tactic are input lines taken as they are: the goal
/// is the line after a star line, and the tactic the line two after the goal.
pub proof fn lemma_goal_and_tactic_are_lines(lines: Seq<Seq<char>>, i: int)
    requires
        0 <= i <= lines.len(),
    ensures
        forall|k: int|
            0 <= k < parse_from(lines, i).len() ==> taken_after(
                lines,
                i,
                #[trigger] parse_from(lines, i)[k],
            ),
    decreases lines.len() - i,
{
    let recs = parse_from(lines, i);
    if i < lines.len() {
        lemma_header_end_bounds(lines, i);
        let h = header_end(lines, i);
        if h < lines.len() {
            if h <= i + 1 {
                lemma_goal_and_tactic_are_lines(lines, h + 1);
                let rest = parse_from(lines, h + 1);
                assert(recs == rest);
                assert forall|k: int| 0 <= k < recs.len() implies taken_after(
                    lines,
                    i,
                    #[trigger] recs[k],
                ) by {
                    assert(taken_after(lines, h + 1, rest[k]));
                    let j = choose|j: int| h + 1 < j && #[trigger] goal_and_tactic_at(lines, j, rest[k]);
                    assert(goal_and_tactic_at(lines, j, recs[k]));
                }
            } else {
                lemma_section_end_bounds(lines, h + 1);
                let p = section_end(lines, h + 1);
                if p < lines.len() {
                    lemma_section_end_bounds(lines, p + 1);
                }
                let q = section_end(lines, p + 1);
                if q + 3 < lines.len() {
                    lemma_goal_and_tactic_are_lines(lines, q + 4);
                    let rest = parse_from(lines, q + 4);
                    let first = tactic_record(
                        content_lines(lines.subrange(h + 1, p)),
                        content_lines(lines.subrange(p + 1, q)),
                        lines[q + 1],
                        lines[q + 3],
                    );
                    assert(recs == seq![first] + rest);
                    assert forall|k: int| 0 <= k < recs.len() implies taken_after(
                        lines,
                        i,
                        #[trigger] recs[k],
                    ) by {
                        if k == 0 {
                            assert(recs[0] == first);
                            assert(goal_and_tactic_at(lines, q + 1, recs[0]));
                        } else {
                            assert(recs[k] == rest[k - 1]);
                            assert(taken_after(lines, q + 4, rest[k - 1]));
                            let j = choose|j: int|
                                q + 4 < j && #[trigger] goal_and_tactic_at(lines, j, rest[k - 1]);
                            assert(goal_and_tactic_at(lines, j, recs[k]));
                        }
                    }
                }
            }
        }
    }
}

/// Where no input line holds a line break, no record's goal or tactic does.
pub proof fn lemma_goal_and_tactic_single_lines(lines: Seq<Seq<char>>)
    requires
        forall|j: int| 0 <= j < lines.len() ==> !(#[trigger] lines[j]).contains('\n'),
    ensures
        forall|k: int|
            0 <= k < parse_from(lines, 0).len() ==> !(#[trigger] parse_from(lines, 0)[k]).goal.contains(
                '\n',
            ) && !parse_from(lines, 0)[k].tactic.contains('\n'),
{
    lemma_goal_and_tactic_are_lines(lines, 0);
    assert forall|k: int| 0 <= k < parse_from(lines, 0).len() implies !(#[trigger] parse_from(
        lines,
        0,
    )[k]).goal.contains('\n') && !parse_from(lines, 0)[k].tactic.contains('\n') by {
        assert(taken_after(lines, 0, parse_from(lines, 0)[k]));
        let j = choose|j: int| 0 < j && #[trigger] goal_and_tactic_at(lines, j, parse_from(lines, 0)[k]);
        assert(!lines[j].contains('\n'));
        assert(!lines[j + 2].contains('\n'));
    }
}

} // verus!

verus! {

/// One block of a well-formed input, as its writer laid it out.
pub ghost enum Block {
    /// An empty header block: a sentinel alone, as between records.
    Empty { end: Seq<char> },
    /// A header block of one line, ended by a sentinel.
    Skipped { line: Seq<char>, end: Seq<char> },
    /// A complete record: header block, sentinel, previous tactics, star line,
    /// hypotheses, star line, goal, separator and tactic.
    Full {
        header: Seq<Seq<char>>,
        end: Seq<char>,
        prev: Seq<Seq<char>>,
        hyps: Seq<Seq<char>>,
        goal: Seq<char>,
        separator: Seq<char>,
        tactic: Seq<char>,
    },
}

/// A block whose lines read back as the block: header lines are no
/// sentinels, section lines are no star lines, a full header has two lines
/// or more.
pub open spec fn block_wf(b: Block) -> bool {
    match b {
        Block::Empty { end } => is_sentinel(end),
        Block::Skipped { line, end } => !is_sentinel(line) && is_sentinel(end),
        Block::Full { header, end, prev, hyps, .. } => {
            &&& header.len() >= 2
            &&& forall|j: int| 0 <= j < header.len() ==> !is_sentinel(#[trigger] header[j])
            &&& is_sentinel(end)
            &&& forall|j: int| 0 <= j < prev.len() ==> #[trigger] prev[j] != star_line()
            &&& forall|j: int| 0 <= j < hyps.len() ==> #[trigger] hyps[j] != star_line()
        },
    }
}

/// Every block of `bs` is well formed.
pub open spec fn blocks_wf(bs: Seq<Block>) -> bool {
    forall|j: int| 0 <= j < bs.len() ==> block_wf(#[trigger] bs[j])
}

/// The lines of a block.
pub open spec fn block_lines(b: Block) -> Seq<Seq<char>> {
    match b {
        Block::Empty { end } => seq![end],
        Block::Skipped { line, end } => seq![line, end],
        Block::Full { header, end, prev, hyps, goal, separator, tactic } => header + seq![end]
            + prev + seq![star_line()] + hyps + seq![star_line()] + seq![goal, separator, tactic],
    }
}

/// The lines of a sequence of blocks, one after the other.
pub open spec fn render(bs: Seq<Block>) -> Seq<Seq<char>>
    decreases bs.len(),
{
    if bs.len() == 0 {
        Seq::empty()
    } else {
        block_lines(bs[0]) + render(bs.drop_first())
    }
}

/// The record that a block stands for, if any.
pub open spec fn block_records(b: Block) -> Seq<TacticView> {
    match b {
        Block::Empty { .. } => Seq::empty(),
        Block::Skipped { .. } => Seq::empty(),
        Block::Full { prev, hyps, goal, tactic, .. } => seq![
            tactic_record(content_lines(prev), content_lines(hyps), goal, tactic),
        ],
    }
}

/// The records that a sequence of blocks stands for.
pub open spec fn blocks_records(bs: Seq<Block>) -> Seq<TacticView>
    decreases bs.len(),
{
    if bs.len() == 0 {
        Seq::empty()
    } else {
        block_records(bs[0]) + blocks_records(bs.drop_first())
    }
}

/// The number of blocks whose header has two lines or more.
pub open spec fn full_block_count(bs: Seq<Block>) -> nat
    decreases bs.len(),
{
    if bs.len() == 0 {
        0
    } else {
        (if bs[0] is Full { 1nat } else { 0nat }) + full_block_count(bs.drop_first())
    }
}

/// The first sentinel at or after `k` is at `m`.
proof fn lemma_header_end_at(lines: Seq<Seq<char>>, k: int, m: int)
    requires
        0 <= k <= m < lines.len(),
        forall|j: int| k <= j < m ==> !is_sentinel(#[trigger] lines[j]),
        is_sentinel(lines[m]),
    ensures
        header_end(lines, k) == m,
    decreases m - k,
{
    if k < m {
        lemma_header_end_at(lines, k + 1, m);
    }
}

/// The first star line at or after `k` is at `m`.
proof fn lemma_section_end_at(lines: Seq<Seq<char>>, k: int, m: int)
    requires
        0 <= k <= m < lines.len(),
        forall|j: int| k <= j < m ==> #[trigger] lines[j] != star_line(),
        lines[m] == star_line(),
    ensures
        section_end(lines, k) == m,
    decreases m - k,
{
    if k < m {
        lemma_section_end_at(lines, k + 1, m);
    }
}

/// Reading from line `i`, where the rest of the input is the rendering of
/// well-formed blocks, yields the records that the blocks stand for.
proof fn lemma_parse_rendered(lines: Seq<Seq<char>>, i: int, bs: Seq<Block>)
    requires
        0 <= i <= lines.len(),
        lines.subrange(i, lines.len() as int) == render(bs),
        blocks_wf(bs),
    ensures
        parse_from(lines, i) == blocks_records(bs),
    decreases bs.len(),
{
    if bs.len() > 0 {
        let b = bs[0];
        let bl = block_lines(b);
        let rest = bs.drop_first();
        let n = bl.len() as int;
        assert(render(bs) == bl + render(rest));
        assert(block_wf(b));
        assert forall|y: int| 0 <= y < n implies lines[i + y] == #[trigger] bl[y] by {
            assert(lines.subrange(i, lines.len() as int)[y] == lines[i + y]);
            assert(render(bs)[y] == bl[y]);
        }
        assert(lines.subrange(i + n, lines.len() as int) =~= render(rest)) by {
            let whole = lines.subrange(i, lines.len() as int);
            assert forall|x: int| 0 <= x < render(rest).len() implies lines.subrange(
                i + n,
                lines.len() as int,
            )[x] == render(rest)[x] by {
                assert(whole[n + x] == lines[i + n + x]);
                assert(render(bs)[n + x] == render(rest)[x]);
            }
        }
        assert forall|j: int| 0 <= j < rest.len() implies block_wf(#[trigger] rest[j]) by {
            assert(rest[j] == bs[j + 1]);
        }
        lemma_parse_rendered(lines, i + n, rest);
        match b {
            Block::Empty { end } => {
                assert(lines[i] == bl[0]);
                lemma_header_end_at(lines, i, i);
                assert(blocks_records(bs) =~= blocks_records(rest));
            },
            Block::Skipped { line, end } => {
                assert(lines[i] == bl[0]);
                assert(lines[i + 1] == bl[1]);
                lemma_header_end_at(lines, i, i + 1);
                assert(blocks_records(bs) =~= blocks_records(rest));
            },
            Block::Full { header, end, prev, hyps, goal, separator, tactic } => {
                let hl = header.len() as int;
                let pl = prev.len() as int;
                let yl = hyps.len() as int;
                let h = i + hl;
                let p = h + 1 + pl;
                let q = p + 1 + yl;
                assert(n == hl + pl + yl + 6);
                assert forall|j: int| i <= j < h implies !is_sentinel(#[trigger] lines[j]) by {
                    assert(lines[i + (j - i)] == bl[j - i]);
                    assert(bl[j - i] == header[j - i]);
                }
                assert(lines[h] == bl[hl]);
                lemma_header_end_at(lines, i, h);
                assert forall|j: int| h + 1 <= j < p implies #[trigger] lines[j] != star_line() by {
                    assert(lines[i + (j - i)] == bl[j - i]);
                    assert(bl[j - i] == prev[j - h - 1]);
                }
                assert(lines[p] == bl[hl + 1 + pl]);
                lemma_section_end_at(lines, h + 1, p);
                assert forall|j: int| p + 1 <= j < q implies #[trigger] lines[j] != star_line() by {
                    assert(lines[i + (j - i)] == bl[j - i]);
                    assert(bl[j - i] == hyps[j - p - 1]);
                }
                assert(lines[q] == bl[hl + 2 + pl + yl]);
                lemma_section_end_at(lines, p + 1, q);
                assert(lines.subrange(h + 1, p) =~= prev) by {
                    assert forall|x: int| 0 <= x < pl implies lines.subrange(h + 1, p)[x]
                        == prev[x] by {
                        assert(lines[i + (hl + 1 + x)] == bl[hl + 1 + x]);
                    }
                }
                assert(lines.subrange(p + 1, q) =~= hyps) by {
                    assert forall|x: int| 0 <= x < yl implies lines.subrange(p + 1, q)[x]
                        == hyps[x] by {
                        assert(lines[i + (hl + 2 + pl + x)] == bl[hl + 2 + pl + x]);
                    }
                }
                assert(lines[q + 1] == bl[n - 3]);
                assert(lines[q + 3] == bl[n - 1]);
                assert(q + 4 == i + n);
            },
        }
    } else {
        assert(lines.subrange(i, lines.len() as int).len() == 0);
    }
}

/// The number of records that blocks stand for is the number of full blocks.
proof fn lemma_blocks_records_len(bs: Seq<Block>)
    ensures
        blocks_records(bs).len() == full_block_count(bs),
    decreases bs.len(),
{
    if bs.len() > 0 {
        lemma_blocks_records_len(bs.drop_first());
    }
}

/// An input laid out as well-formed blocks reads back as the records of its
/// full blocks, in order: one record for each header block of two lines or
/// more, and none for a header block of one line or an empty one (such as
/// the sentinel that precedes each record after the first, or follows the
/// last).
pub proof fn lemma_records_of_blocks(bs: Seq<Block>)
    requires
        blocks_wf(bs),
    ensures
        parse_from(render(bs), 0) == blocks_records(bs),
        parse_from(render(bs), 0).len() == full_block_count(bs),
{
    let lines = render(bs);
    assert(lines.subrange(0, lines.len() as int) =~= lines);
    lemma_parse_rendered(lines, 0, bs);
    lemma_blocks_records_len(bs);
}

} // verus!
