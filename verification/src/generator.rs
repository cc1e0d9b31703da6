//! The problem generator and the state it carries from one problem to the next.

use crate::problem::Problem;
use crate::random::{draw_between, fresh_rng, pick_one};
use crate::rules::{
    all_multipliers, drawn_from, is_worksheet, lemma_allowed_keeps_rules,
    lemma_candidates_exact, lemma_candidates_nonempty, lemma_initial_tracks, lemma_record_tracks,
    multipliers_of, no_close_repeat, rare_at_most_once, slide, StateView, DEFAULT_TABLE,
    MAX_MULTIPLIER, RECENT_WINDOW, SPARE_HIGH, SPARE_LOW,
};
use rand::rngs::StdRng;
use std::collections::VecDeque;
use vstd::prelude::*;

verus! {

/// The state of one generation run: which rare multipliers are spent, and
/// the multipliers of the latest problems. It is made anew for each run.
#[derive(Clone, Debug)]
pub struct GenerationState {
    used_zero: bool,
    used_one: bool,
    used_ten: bool,
    recent: VecDeque<u8>,
}

impl View for GenerationState {
    type V = StateView;

    closed spec fn view(&self) -> StateView {
        StateView {
            used_zero: self.used_zero,
            used_one: self.used_one,
            used_ten: self.used_ten,
            recent: self.recent@,
        }
    }
}

impl GenerationState {
    /// The state before the first problem: nothing used, nothing recent.
    pub fn new() -> (state: GenerationState)
        ensures
            state@ == StateView::initial(),
            state@.wf(),
    {
        GenerationState {
            used_zero: false,
            used_one: false,
            used_ten: false,
            recent: VecDeque::with_capacity(RECENT_WINDOW),
        }
    }

    /// Whether `multiplier` is among the recent ones.
    pub fn is_recent(&self, multiplier: u8) -> (found: bool)
        ensures
            found == self@.recent.contains(multiplier),
    {
        let n = self.recent.len();
        let mut i: usize = 0;
        while i < n
            invariant
                n == self.recent@.len(),
                i <= n,
                forall|k: int| 0 <= k < i ==> self.recent@[k] != multiplier,
            decreases n - i,
        {
            if self.recent[i] == multiplier {
                return true;
            }
            i += 1;
        }
        false
    }

    /// Whether `multiplier` may be drawn next.
    pub fn allows(&self, multiplier: u8) -> (ok: bool)
        ensures
            ok == self@.allows(multiplier),
    {
        if multiplier > MAX_MULTIPLIER {
            return false;
        }
        let spent = match multiplier {
            0 => self.used_zero,
            1 => self.used_one,
            10 => self.used_ten,
            _ => false,
        };
        !spent && !self.is_recent(multiplier)
    }

    /// The multipliers that may be drawn next, in increasing order.
    pub fn candidates(&self) -> (list: Vec<u8>)
        ensures
            list@ == self@.candidates(),
    {
        let mut list: Vec<u8> = Vec::new();
        let mut multiplier: u8 = 0;
        proof {
            reveal(Seq::filter);
            assert(all_multipliers().take(0) =~= Seq::<u8>::empty());
        }
        while multiplier <= MAX_MULTIPLIER
            invariant
                multiplier <= MAX_MULTIPLIER + 1,
                list@ == all_multipliers().take(multiplier as int).filter(self@.allowed()),
            decreases MAX_MULTIPLIER + 1 - multiplier,
        {
            let ghost before = all_multipliers().take(multiplier as int);
            proof {
                assert(all_multipliers().take(multiplier + 1) =~= before.push(multiplier));
                before.lemma_filter_push(multiplier, self@.allowed());
            }
            if self.allows(multiplier) {
                list.push(multiplier);
            }
            multiplier += 1;
        }
        assert(all_multipliers().take(MAX_MULTIPLIER + 1) =~= all_multipliers());
        list
    }

    /// Takes note that `multiplier` has been given out: a rare multiplier is
    /// spent, and the window moves on by one, dropping its oldest entry once
    /// it is full.
    pub fn record(&mut self, multiplier: u8)
        ensures
            final(self)@ == old(self)@.record(multiplier),
            old(self)@.wf() ==> final(self)@.wf(),
    {
        match multiplier {
            0 => {
                self.used_zero = true;
            },
            1 => {
                self.used_one = true;
            },
            10 => {
                self.used_ten = true;
            },
            _ => {},
        }
        self.recent.push_back(multiplier);
        if self.recent.len() > RECENT_WINDOW {
            self.recent.pop_front();
        }
        assert(self.recent@ =~= slide(old(self).recent@, multiplier));
    }

    /// Settles one problem from the three draws of a round and records it.
    /// The multiplicand is the table drawn, or `DEFAULT_TABLE` if there was
    /// none to draw from. The multiplier is the candidate drawn, or `spare`
    /// if there was no candidate.
    pub fn next_problem(
        &mut self,
        table_pick: Option<u8>,
        multiplier_pick: Option<u8>,
        spare: u8,
    ) -> (problem: Problem)
        ensures
            problem.multiplicand == (match table_pick {
                Some(table) => table,
                None => DEFAULT_TABLE,
            }),
            problem.multiplier == (match multiplier_pick {
                Some(multiplier) => multiplier,
                None => spare,
            }),
            final(self)@ == old(self)@.record(problem.multiplier),
            old(self)@.wf() ==> final(self)@.wf(),
    {
        let multiplicand = match table_pick {
            Some(table) => table,
            None => DEFAULT_TABLE,
        };
        let multiplier = match multiplier_pick {
            Some(multiplier) => multiplier,
            None => spare,
        };
        self.record(multiplier);
        Problem { multiplier, multiplicand }
    }
}

/// Draws a worksheet of `total` problems over `tables` from `rng`.
///
/// Each round draws a table, then a multiplier among the candidates of the
/// state, then a spare between `SPARE_LOW` and `SPARE_HIGH`, and settles the
/// problem with `GenerationState::next_problem`. Whatever the generator
/// hands back, the result has `total` problems, every multiplicand is one of
/// `tables` (`DEFAULT_TABLE` if there are none), every multiplier is at most
/// `MAX_MULTIPLIER`, each of 0, 1 and 10 occurs at most once, and no
/// multiplier comes back within `RECENT_WINDOW` problems. The spare is never
/// used, because a candidate is always left.
pub fn generate(tables: &[u8], total: usize, rng: &mut StdRng) -> (problems: Vec<Problem>)
    ensures
        problems@.len() == total,
        forall|i: int| 0 <= i < total ==> (#[trigger] problems@[i]).multiplier <= MAX_MULTIPLIER,
        forall|i: int| 0 <= i < total ==> drawn_from(tables@, (#[trigger] problems@[i]).multiplicand),
        rare_at_most_once(multipliers_of(problems@)),
        no_close_repeat(multipliers_of(problems@)),
{
    let mut problems: Vec<Problem> = Vec::new();
    let mut state = GenerationState::new();
    proof {
        lemma_initial_tracks();
        assert(multipliers_of(problems@) =~= Seq::<u8>::empty());
    }
    while problems.len() < total
        invariant
            problems@.len() <= total,
            state@.tracks(multipliers_of(problems@)),
            is_worksheet(tables@, problems@),
        decreases total - problems@.len(),
    {
        let ghost history = multipliers_of(problems@);
        let ghost before = problems@;
        let candidates = state.candidates();
        let table_pick = pick_one(rng, tables);
        let multiplier_pick = pick_one(rng, candidates.as_slice());
        let spare = draw_between(rng, SPARE_LOW, SPARE_HIGH);
        proof {
            // A candidate is left, so the pick is one, and the state allows it.
            lemma_candidates_nonempty(state@);
            lemma_candidates_exact(state@, multiplier_pick.unwrap());
            lemma_allowed_keeps_rules(state@, history, multiplier_pick.unwrap());
            lemma_record_tracks(state@, history, multiplier_pick.unwrap());
        }
        let problem = state.next_problem(table_pick, multiplier_pick, spare);
        problems.push(problem);
        proof {
            assert(multipliers_of(problems@) =~= history.push(problem.multiplier));
            assert forall|i: int| 0 <= i < problems@.len() implies (#[trigger] problems@[i]).multiplier
                <= MAX_MULTIPLIER && drawn_from(tables@, problems@[i].multiplicand) by {
                if i < before.len() {
                    assert(problems@[i] == before[i]);
                }
            }
        }
    }
    problems
}

/// The lines of text of `problems`, in order.
pub fn render_lines(problems: &[Problem]) -> (lines: Vec<String>)
    ensures
        lines@.len() == problems@.len(),
        forall|i: int| 0 <= i < problems@.len() ==> (#[trigger] lines@[i])@ == problems@[i].spec_text(),
{
    let mut lines: Vec<String> = Vec::new();
    let mut i: usize = 0;
    while i < problems.len()
        invariant
            i <= problems@.len(),
            lines@.len() == i,
            forall|k: int| 0 <= k < i ==> (#[trigger] lines@[k])@ == problems@[k].spec_text(),
        decreases problems@.len() - i,
    {
        lines.push(problems[i].text());
        i += 1;
    }
    lines
}

/// Whether `lines` are the lines of text of some worksheet over `tables`.
pub open spec fn is_worksheet_text(tables: Seq<u8>, lines: Seq<String>) -> bool {
    exists|problems: Seq<Problem>|
        {
            &&& #[trigger] is_worksheet(tables, problems)
            &&& problems.len() == lines.len()
            &&& forall|i: int| 0 <= i < lines.len() ==> (#[trigger] lines[i])@ == problems[i].spec_text()
        }
}

/// Draws a worksheet of `total` problems over `tables` from a generator
/// seeded by the operating system, and writes each problem out as a line.
pub fn build_operations(tables: &[u8], total: usize) -> (operations: Vec<String>)
    ensures
        operations@.len() == total,
        is_worksheet_text(tables@, operations@),
{
    let mut rng = fresh_rng();
    let problems = generate(tables, total, &mut rng);
    let operations = render_lines(problems.as_slice());
    assert(is_worksheet(tables@, problems@));
    operations
}

} // verus!
