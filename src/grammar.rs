//! The record grammar, stated over the whole sequence of input lines.
//!
//! [`parse_from`] says which records a reader that starts at line `i` hands
//! out before it reports the end of the stream.
use vstd::prelude::*;

use crate::line::{is_blank, is_sentinel, star_line};
use crate::record::{tactic_record, TacticView};

verus! {

/// Index of the first sentinel at or after `i`, or the number of lines if none.
pub open spec fn header_end(lines: Seq<Seq<char>>, i: int) -> int
    decreases lines.len() - i,
{
    if i >= lines.len() {
        lines.len() as int
    } else if is_sentinel(lines[i]) {
        i
    } else {
        header_end(lines, i + 1)
    }
}

/// Index of the first star line at or after `i`, or the number of lines if none.
pub open spec fn section_end(lines: Seq<Seq<char>>, i: int) -> int
    decreases lines.len() - i,
{
    if i >= lines.len() {
        lines.len() as int
    } else if lines[i] == star_line() {
        i
    } else {
        section_end(lines, i + 1)
    }
}

/// The non-blank lines of `s`, in order.
pub open spec fn content_lines(s: Seq<Seq<char>>) -> Seq<Seq<char>>
    decreases s.len(),
{
    if s.len() == 0 {
        Seq::empty()
    } else {
        add_content(content_lines(s.drop_last()), s.last())
    }
}

/// `acc` with `l` appended, unless `l` is blank.
pub open spec fn add_content(acc: Seq<Seq<char>>, l: Seq<char>) -> Seq<Seq<char>> {
    if is_blank(l) {
        acc
    } else {
        acc.push(l)
    }
}

/// The records read from `lines` by a reader that starts a header block at
/// line `i`.
///
/// The header block runs to the first sentinel. A header block that the input
/// ends inside ends the stream. An empty header block, or one of a single
/// line, is skipped: reading goes on after its sentinel. Otherwise the previous tactics run to the next star line, the
/// hypotheses to the one after; then come the goal, a separator line whose
/// content is ignored, and the tactic. A record that the input ends inside is
/// dropped.
pub open spec fn parse_from(lines: Seq<Seq<char>>, i: int) -> Seq<TacticView>
    decreases lines.len() - i,
{
    if i < 0 || i >= lines.len() {
        Seq::empty()
    } else {
        let h = header_end(lines, i);
        proof {
            lemma_header_end_bounds(lines, i);
        }
        if h >= lines.len() {
            Seq::empty()
        } else if h <= i + 1 {
            parse_from(lines, h + 1)
        } else {
            let p = section_end(lines, h + 1);
            let q = section_end(lines, p + 1);
            proof {
                lemma_section_end_bounds(lines, h + 1);
                if p < lines.len() {
                    lemma_section_end_bounds(lines, p + 1);
                }
            }
            if q + 3 >= lines.len() {
                Seq::empty()
            } else {
                seq![
                    tactic_record(
                        content_lines(lines.subrange(h + 1, p)),
                        content_lines(lines.subrange(p + 1, q)),
                        lines[q + 1],
                        lines[q + 3],
                    ),
                ] + parse_from(lines, q + 4)
            }
        }
    }
}

/// [`header_end`] lies between `i` and the end, at a sentinel, with none before it.
pub proof fn lemma_header_end_bounds(lines: Seq<Seq<char>>, i: int)
    requires
        0 <= i <= lines.len(),
    ensures
        i <= header_end(lines, i) <= lines.len(),
        header_end(lines, i) < lines.len() ==> is_sentinel(lines[header_end(lines, i)]),
        forall|j: int| i <= j < header_end(lines, i) ==> !is_sentinel(#[trigger] lines[j]),
    decreases lines.len() - i,
{
    if i < lines.len() && !is_sentinel(lines[i]) {
        lemma_header_end_bounds(lines, i + 1);
    }
}

/// [`section_end`] lies between `i` and the end, at a star line, with none before it.
pub proof fn lemma_section_end_bounds(lines: Seq<Seq<char>>, i: int)
    requires
        0 <= i <= lines.len(),
    ensures
        i <= section_end(lines, i) <= lines.len(),
        section_end(lines, i) < lines.len() ==> lines[section_end(lines, i)] == star_line(),
        forall|j: int| i <= j < section_end(lines, i) ==> #[trigger] lines[j] != star_line(),
    decreases lines.len() - i,
{
    if i < lines.len() && lines[i] != star_line() {
        lemma_section_end_bounds(lines, i + 1);
    }
}

} // verus!
