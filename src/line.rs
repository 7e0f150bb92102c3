//! Classification of single lines: the two sentinels and blank lines.
use vstd::prelude::*;

verus! {

/// The sentinel made of five dashes.
pub open spec fn dash_line() -> Seq<char> {
    seq!['-', '-', '-', '-', '-']
}

/// The sentinel made of five stars; it also closes the tactic and hypothesis sections.
pub open spec fn star_line() -> Seq<char> {
    seq!['*', '*', '*', '*', '*']
}

/// A line that ends a header block.
pub open spec fn is_sentinel(l: Seq<char>) -> bool {
    l == dash_line() || l == star_line()
}

/// A line that carries no content.
pub open spec fn is_blank(l: Seq<char>) -> bool {
    l.len() == 0
}

/// Whether `line` is exactly five copies of `c`.
fn is_five_of(line: &str, c: char) -> (r: bool)
    ensures
        r == (line@ == seq![c, c, c, c, c]),
{
    let n = line.unicode_len();
    if n != 5 {
        return false;
    }
    let mut i: usize = 0;
    while i < 5
        invariant
            n == 5,
            line@.len() == 5,
            i <= 5,
            forall|j: int| 0 <= j < i ==> line@[j] == c,
        decreases 5 - i,
    {
        if line.get_char(i) != c {
            return false;
        }
        i = i + 1;
    }
    assert(line@ =~= seq![c, c, c, c, c]);
    true
}

/// Whether `line` is the five-star sentinel.
pub fn is_star_line(line: &str) -> (r: bool)
    ensures
        r == (line@ == star_line()),
{
    is_five_of(line, '*')
}

/// Whether `line` is one of the two sentinels.
pub fn is_sentinel_line(line: &str) -> (r: bool)
    ensures
        r == is_sentinel(line@),
{
    is_five_of(line, '-') || is_five_of(line, '*')
}

/// Whether `line` is empty.
pub fn is_blank_line(line: &str) -> (r: bool)
    ensures
        r == is_blank(line@),
{
    line.is_empty()
}

} // verus!
