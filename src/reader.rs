//! Reading every record of a text that is already split into lines.
use vstd::prelude::*;

use crate::grammar::parse_from;
use crate::parser::{emitted, run_from, LineEvent, Step, TacticParser};
use crate::record::{record_views, texts, ScrapedTactic};
use crate::refinement::lemma_run_matches_parse;

verus! {

/// The records of `lines`, read as a complete text: a record that the text
/// ends inside is dropped.
pub fn read_records(lines: &Vec<String>) -> (r: Vec<ScrapedTactic>)
    ensures
        record_views(r@) == parse_from(texts(lines@), 0),
{
    let ghost all = texts(lines@);
    let mut parser = TacticParser::new();
    let mut out: Vec<ScrapedTactic> = Vec::new();
    let mut k: usize = 0;
    proof {
        lemma_run_matches_parse(all, 0);
        assert(record_views(out@) + run_from(parser@, all, 0) =~= parse_from(all, 0));
    }
    while k < lines.len() && !parser.is_done()
        invariant
            k <= lines.len(),
            all == texts(lines@),
            record_views(out@) + run_from(parser@, all, k as int) == parse_from(all, 0),
        decreases lines.len() - k,
    {
        let ghost before = out@;
        let ghost rest = run_from(parser@, all, k as int);
        let step = parser.step(LineEvent::Line(lines[k].clone()));
        let ghost out_now = emitted(step@);
        match step {
            Step::Record(t) => {
                out.push(t);
            },
            _ => {},
        }
        proof {
            assert(record_views(out@) =~= record_views(before) + out_now);
            assert(rest == out_now + run_from(parser@, all, k + 1));
            assert(record_views(out@) + run_from(parser@, all, k + 1) =~= record_views(before)
                + rest);
        }
        k = k + 1;
    }
    proof {
        assert(record_views(out@) + run_from(parser@, all, k as int) =~= record_views(out@));
    }
    out
}

} // verus!
