//! The record handed out for each completed tactic application.
use vstd::prelude::*;

verus! {

/// One recorded step of an interactive proof.
#[derive(Debug, PartialEq, Eq)]
pub struct ScrapedTactic {
    /// Lemmas relevant to the goal; this format version never fills it.
    pub relevant_lemmas: Vec<String>,
    /// Tactics applied earlier in the proof, in source order.
    pub prev_tactics: Vec<String>,
    /// Hypotheses in the local context, in source order.
    pub hypotheses: Vec<String>,
    /// The goal at this step.
    pub goal: String,
    /// The tactic applied at this step.
    pub tactic: String,
}

/// The mathematical content of a [`ScrapedTactic`].
pub ghost struct TacticView {
    pub relevant_lemmas: Seq<Seq<char>>,
    pub prev_tactics: Seq<Seq<char>>,
    pub hypotheses: Seq<Seq<char>>,
    pub goal: Seq<char>,
    pub tactic: Seq<char>,
}

/// The text of each string of `v`.
pub open spec fn texts(v: Seq<String>) -> Seq<Seq<char>> {
    v.map_values(|s: String| s@)
}

/// The record with the given sections, goal and tactic, and no relevant lemmas.
pub open spec fn tactic_record(
    prev: Seq<Seq<char>>,
    hyps: Seq<Seq<char>>,
    goal: Seq<char>,
    tactic: Seq<char>,
) -> TacticView {
    TacticView {
        relevant_lemmas: Seq::empty(),
        prev_tactics: prev,
        hypotheses: hyps,
        goal,
        tactic,
    }
}

impl View for ScrapedTactic {
    type V = TacticView;

    open spec fn view(&self) -> TacticView {
        TacticView {
            relevant_lemmas: texts(self.relevant_lemmas@),
            prev_tactics: texts(self.prev_tactics@),
            hypotheses: texts(self.hypotheses@),
            goal: self.goal@,
            tactic: self.tactic@,
        }
    }
}

/// The views of a sequence of records.
pub open spec fn record_views(v: Seq<ScrapedTactic>) -> Seq<TacticView> {
    v.map_values(|t: ScrapedTactic| t@)
}

} // verus!
