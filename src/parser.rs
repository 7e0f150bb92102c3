//! The record reader as a state machine fed one line at a time.
//!
//! The caller owns the line source: it reads a line, hands it to
//! [`TacticParser::step`] as a [`LineEvent`], and acts on the [`Step`] that comes
//! back. The reader keeps only the sections of the record in progress.
use vstd::prelude::*;

use crate::grammar::add_content;
use crate::line::{is_blank_line, is_sentinel, is_sentinel_line, is_star_line, star_line};
use crate::record::{tactic_record, texts, ScrapedTactic, TacticView};

verus! {

/// What the line source produced next.
pub enum LineEvent {
    /// A line, without its line ending.
    Line(String),
    /// The source is exhausted.
    EndOfInput,
    /// The next line is not valid text.
    Undecodable,
}

/// What the reader asks of the caller after a line.
pub enum Step {
    /// The record in progress needs another line.
    NeedLine,
    /// A record is complete; the next line starts a new header block.
    Record(ScrapedTactic),
    /// No further record can be formed.
    EndOfStream,
    /// A line could not be decoded; the stream is over.
    DecodeError,
}

/// Where the reader stands within a record.
enum ParseState {
    Header { seen: u8 },
    PrevTactics { prev: Vec<String> },
    Hypotheses { prev: Vec<String>, hyps: Vec<String> },
    Goal { prev: Vec<String>, hyps: Vec<String> },
    Separator { prev: Vec<String>, hyps: Vec<String>, goal: String },
    Tactic { prev: Vec<String>, hyps: Vec<String>, goal: String },
    Finished,
    Failed,
}

/// The mathematical state of the reader.
///
/// `Header::seen` counts the header lines read so far, up to two: only
/// whether there were none, one, or more decides what follows.
pub ghost enum Phase {
    Header { seen: nat },
    PrevTactics { prev: Seq<Seq<char>> },
    Hypotheses { prev: Seq<Seq<char>>, hyps: Seq<Seq<char>> },
    Goal { prev: Seq<Seq<char>>, hyps: Seq<Seq<char>> },
    Separator { prev: Seq<Seq<char>>, hyps: Seq<Seq<char>>, goal: Seq<char> },
    Tactic { prev: Seq<Seq<char>>, hyps: Seq<Seq<char>>, goal: Seq<char> },
    Finished,
    Failed,
}

/// The mathematical content of a [`LineEvent`].
pub ghost enum EventView {
    Line(Seq<char>),
    EndOfInput,
    Undecodable,
}

/// The mathematical content of a [`Step`].
pub ghost enum StepView {
    NeedLine,
    Record(TacticView),
    EndOfStream,
    DecodeError,
}

impl View for LineEvent {
    type V = EventView;

    open spec fn view(&self) -> EventView {
        match self {
            LineEvent::Line(l) => EventView::Line(l@),
            LineEvent::EndOfInput => EventView::EndOfInput,
            LineEvent::Undecodable => EventView::Undecodable,
        }
    }
}

impl View for Step {
    type V = StepView;

    open spec fn view(&self) -> StepView {
        match self {
            Step::NeedLine => StepView::NeedLine,
            Step::Record(t) => StepView::Record(t@),
            Step::EndOfStream => StepView::EndOfStream,
            Step::DecodeError => StepView::DecodeError,
        }
    }
}

impl View for ParseState {
    type V = Phase;

    closed spec fn view(&self) -> Phase {
        match self {
            ParseState::Header { seen } => Phase::Header { seen: *seen as nat },
            ParseState::PrevTactics { prev } => Phase::PrevTactics { prev: texts(prev@) },
            ParseState::Hypotheses { prev, hyps } => Phase::Hypotheses {
                prev: texts(prev@),
                hyps: texts(hyps@),
            },
            ParseState::Goal { prev, hyps } => Phase::Goal { prev: texts(prev@), hyps: texts(hyps@) },
            ParseState::Separator { prev, hyps, goal } => Phase::Separator {
                prev: texts(prev@),
                hyps: texts(hyps@),
                goal: goal@,
            },
            ParseState::Tactic { prev, hyps, goal } => Phase::Tactic {
                prev: texts(prev@),
                hyps: texts(hyps@),
                goal: goal@,
            },
            ParseState::Finished => Phase::Finished,
            ParseState::Failed => Phase::Failed,
        }
    }
}

/// Whether the reader has stopped for good.
pub open spec fn is_terminal(p: Phase) -> bool {
    p is Finished || p is Failed
}

/// The next phase and the step reported when line `l` arrives in phase `p`.
pub open spec fn line_transition(p: Phase, l: Seq<char>) -> (Phase, StepView) {
    match p {
        Phase::Header { seen } => if is_sentinel(l) {
            if seen <= 1 {
                (Phase::Header { seen: 0 }, StepView::NeedLine)
            } else {
                (Phase::PrevTactics { prev: Seq::empty() }, StepView::NeedLine)
            }
        } else {
            (Phase::Header { seen: if seen < 2 { seen + 1 } else { 2 } }, StepView::NeedLine)
        },
        Phase::PrevTactics { prev } => if l == star_line() {
            (Phase::Hypotheses { prev, hyps: Seq::empty() }, StepView::NeedLine)
        } else {
            (Phase::PrevTactics { prev: add_content(prev, l) }, StepView::NeedLine)
        },
        Phase::Hypotheses { prev, hyps } => if l == star_line() {
            (Phase::Goal { prev, hyps }, StepView::NeedLine)
        } else {
            (Phase::Hypotheses { prev, hyps: add_content(hyps, l) }, StepView::NeedLine)
        },
        Phase::Goal { prev, hyps } => (Phase::Separator { prev, hyps, goal: l }, StepView::NeedLine),
        Phase::Separator { prev, hyps, goal } => (Phase::Tactic { prev, hyps, goal }, StepView::NeedLine),
        Phase::Tactic { prev, hyps, goal } => (
            Phase::Header { seen: 0 },
            StepView::Record(tactic_record(prev, hyps, goal, l)),
        ),
        Phase::Finished => (Phase::Finished, StepView::EndOfStream),
        Phase::Failed => (Phase::Failed, StepView::EndOfStream),
    }
}

/// The next phase and the step reported when event `e` arrives in phase `p`.
///
/// A stopped reader stays stopped. Otherwise an undecodable line fails the
/// stream, the end of input ends it (dropping any record in progress), and a
/// line advances the grammar.
pub open spec fn transition(p: Phase, e: EventView) -> (Phase, StepView) {
    if is_terminal(p) {
        (p, StepView::EndOfStream)
    } else {
        match e {
            EventView::Undecodable => (Phase::Failed, StepView::DecodeError),
            EventView::EndOfInput => (Phase::Finished, StepView::EndOfStream),
            EventView::Line(l) => line_transition(p, l),
        }
    }
}

/// Reads scraped tactic records from lines handed to it one at a time.
pub struct TacticParser {
    state: ParseState,
}

impl View for TacticParser {
    type V = Phase;

    closed spec fn view(&self) -> Phase {
        self.state@
    }
}

impl TacticParser {
    /// A reader at the start of a header block.
    pub fn new() -> (r: TacticParser)
        ensures
            r@ == (Phase::Header { seen: 0 }),
    {
        TacticParser { state: ParseState::Header { seen: 0 } }
    }

    /// Whether the reader has stopped, so that no further record can come.
    pub fn is_done(&self) -> (r: bool)
        ensures
            r == is_terminal(self@),
    {
        match &self.state {
            ParseState::Finished => true,
            ParseState::Failed => true,
            _ => false,
        }
    }

    /// Takes the next event of the line source and reports what follows.
    pub fn step(&mut self, event: LineEvent) -> (r: Step)
        ensures
            (final(self)@, r@) == transition(old(self)@, event@),
    {
        let mut cur = ParseState::Finished;
        std::mem::swap(&mut self.state, &mut cur);
        let (next, r) = advance(cur, event);
        self.state = next;
        r
    }
}

/// Pushes `l` onto `acc` unless it is blank.
fn push_content(acc: &mut Vec<String>, l: String)
    ensures
        texts(final(acc)@) == add_content(texts(old(acc)@), l@),
{
    if !is_blank_line(l.as_str()) {
        acc.push(l);
        proof {
            assert(texts(acc@) =~= texts(old(acc)@).push(l@));
        }
    }
}

/// The transition of [`TacticParser::step`] on an owned state.
fn advance(state: ParseState, event: LineEvent) -> (r: (ParseState, Step))
    ensures
        (r.0@, r.1@) == transition(state@, event@),
{
    match state {
        ParseState::Finished => return (ParseState::Finished, Step::EndOfStream),
        ParseState::Failed => return (ParseState::Failed, Step::EndOfStream),
        _ => {},
    }
    let l = match event {
        LineEvent::Undecodable => return (ParseState::Failed, Step::DecodeError),
        LineEvent::EndOfInput => return (ParseState::Finished, Step::EndOfStream),
        LineEvent::Line(l) => l,
    };
    match state {
        ParseState::Header { seen } => {
            if is_sentinel_line(l.as_str()) {
                if seen <= 1 {
                    (ParseState::Header { seen: 0 }, Step::NeedLine)
                } else {
                    let prev: Vec<String> = Vec::new();
                    proof {
                        assert(texts(prev@) =~= Seq::empty());
                    }
                    (ParseState::PrevTactics { prev }, Step::NeedLine)
                }
            } else {
                let seen = if seen < 2 { seen + 1 } else { 2 };
                (ParseState::Header { seen }, Step::NeedLine)
            }
        },
        ParseState::PrevTactics { mut prev } => {
            if is_star_line(l.as_str()) {
                let hyps: Vec<String> = Vec::new();
                proof {
                    assert(texts(hyps@) =~= Seq::empty());
                }
                (ParseState::Hypotheses { prev, hyps }, Step::NeedLine)
            } else {
                push_content(&mut prev, l);
                (ParseState::PrevTactics { prev }, Step::NeedLine)
            }
        },
        ParseState::Hypotheses { prev, mut hyps } => {
            if is_star_line(l.as_str()) {
                (ParseState::Goal { prev, hyps }, Step::NeedLine)
            } else {
                push_content(&mut hyps, l);
                (ParseState::Hypotheses { prev, hyps }, Step::NeedLine)
            }
        },
        ParseState::Goal { prev, hyps } => (
            ParseState::Separator { prev, hyps, goal: l },
            Step::NeedLine,
        ),
        ParseState::Separator { prev, hyps, goal } => (
            ParseState::Tactic { prev, hyps, goal },
            Step::NeedLine,
        ),
        ParseState::Tactic { prev, hyps, goal } => {
            let relevant_lemmas: Vec<String> = Vec::new();
            proof {
                assert(texts(relevant_lemmas@) =~= Seq::empty());
            }
            let record = ScrapedTactic {
                relevant_lemmas,
                prev_tactics: prev,
                hypotheses: hyps,
                goal,
                tactic: l,
            };
            (ParseState::Header { seen: 0 }, Step::Record(record))
        },
        ParseState::Finished => (ParseState::Finished, Step::EndOfStream),
        ParseState::Failed => (ParseState::Failed, Step::EndOfStream),
    }
}

} // verus!

verus! {

/// The records that a step reports: one for `Record`, none otherwise.
pub open spec fn emitted(s: StepView) -> Seq<TacticView> {
    match s {
        StepView::Record(t) => seq![t],
        _ => Seq::empty(),
    }
}

/// The records reported by a reader in phase `p` that is handed `lines[k..]`
/// one line at a time and then the end of input.
pub open spec fn run_from(p: Phase, lines: Seq<Seq<char>>, k: int) -> Seq<TacticView>
    decreases lines.len() - k,
{
    if k < 0 || k >= lines.len() || is_terminal(p) {
        Seq::empty()
    } else {
        let (q, s) = transition(p, EventView::Line(lines[k]));
        emitted(s) + run_from(q, lines, k + 1)
    }
}

} // verus!
