//! The variety rules of a worksheet, stated over plain sequences, and the
//! proofs that the generator's bookkeeping enforces them.

use crate::problem::Problem;
use vstd::prelude::*;

verus! {

/// The largest multiplier a worksheet uses.
pub const MAX_MULTIPLIER: u8 = 10;

/// How many of the latest multipliers are barred from the next draw.
pub const RECENT_WINDOW: usize = 4;

/// The smallest multiplier that can stand in when no candidate is left.
pub const SPARE_LOW: u8 = 2;

/// The largest multiplier that can stand in when no candidate is left.
pub const SPARE_HIGH: u8 = 9;

/// The multiplicand used when there is no table to draw from.
pub const DEFAULT_TABLE: u8 = 1;

/// The multipliers that a worksheet shows at most once.
pub open spec fn is_rare(multiplier: u8) -> bool {
    multiplier == 0 || multiplier == 1 || multiplier == 10
}

/// A rare multiplier is equal to no later multiplier: each of 0, 1 and 10
/// occurs at most once.
pub open spec fn rare_at_most_once(multipliers: Seq<u8>) -> bool {
    forall|i: int, j: int|
        0 <= i < j < multipliers.len() && is_rare(multipliers[i]) ==> multipliers[i]
            != multipliers[j]
}

/// Two multipliers that are at most `RECENT_WINDOW` places apart differ.
pub open spec fn no_close_repeat(multipliers: Seq<u8>) -> bool {
    forall|i: int, j: int|
        0 <= i < j < multipliers.len() && j - i <= RECENT_WINDOW ==> multipliers[i]
            != multipliers[j]
}

/// The multipliers of a list of problems, in order.
pub open spec fn multipliers_of(problems: Seq<Problem>) -> Seq<u8> {
    Seq::new(problems.len(), |i: int| problems[i].multiplier)
}

/// Whether `multiplicand` can come from `tables`: it is one of them, or it is
/// `DEFAULT_TABLE` where there are none.
pub open spec fn drawn_from(tables: Seq<u8>, multiplicand: u8) -> bool {
    if tables.len() == 0 {
        multiplicand == DEFAULT_TABLE
    } else {
        tables.contains(multiplicand)
    }
}

/// Whether `problems` is a worksheet over `tables`: every multiplier is at
/// most `MAX_MULTIPLIER`, every multiplicand comes from `tables`, and the
/// multipliers keep both variety rules.
pub open spec fn is_worksheet(tables: Seq<u8>, problems: Seq<Problem>) -> bool {
    &&& forall|i: int|
        0 <= i < problems.len() ==> (#[trigger] problems[i]).multiplier <= MAX_MULTIPLIER
    &&& forall|i: int|
        0 <= i < problems.len() ==> drawn_from(tables, (#[trigger] problems[i]).multiplicand)
    &&& rare_at_most_once(multipliers_of(problems))
    &&& no_close_repeat(multipliers_of(problems))
}

/// The last `n` elements of `s`, or all of `s` if it has fewer.
pub open spec fn keep_last(s: Seq<u8>, n: nat) -> Seq<u8> {
    if s.len() <= n {
        s
    } else {
        s.subrange(s.len() - n, s.len() as int)
    }
}

/// The recent window `recent` after `multiplier` has entered it: the new
/// entry goes to the back, and the oldest leaves if that makes more than
/// `RECENT_WINDOW` entries.
pub open spec fn slide(recent: Seq<u8>, multiplier: u8) -> Seq<u8> {
    let pushed = recent.push(multiplier);
    if pushed.len() > RECENT_WINDOW {
        pushed.drop_first()
    } else {
        pushed
    }
}

/// Every multiplier a worksheet can use, in increasing order.
pub open spec fn all_multipliers() -> Seq<u8> {
    Seq::new((MAX_MULTIPLIER + 1) as nat, |i: int| i as u8)
}

/// What the generator remembers between two problems.
pub struct StateView {
    pub used_zero: bool,
    pub used_one: bool,
    pub used_ten: bool,
    /// The latest multipliers, oldest first.
    pub recent: Seq<u8>,
}

impl StateView {
    /// The state before the first problem.
    pub open spec fn initial() -> StateView {
        StateView { used_zero: false, used_one: false, used_ten: false, recent: Seq::empty() }
    }

    /// The recent window holds no more than `RECENT_WINDOW` multipliers.
    pub open spec fn wf(self) -> bool {
        self.recent.len() <= RECENT_WINDOW
    }

    /// Whether `multiplier` may be drawn next: it is in range, it is not a
    /// rare multiplier that has been used, and it is not among the recent ones.
    pub open spec fn allows(self, multiplier: u8) -> bool {
        &&& multiplier <= MAX_MULTIPLIER
        &&& multiplier == 0 ==> !self.used_zero
        &&& multiplier == 1 ==> !self.used_one
        &&& multiplier == 10 ==> !self.used_ten
        &&& !self.recent.contains(multiplier)
    }

    /// `allows` as a predicate.
    pub open spec fn allowed(self) -> spec_fn(u8) -> bool {
        |multiplier: u8| self.allows(multiplier)
    }

    /// The multipliers that may be drawn next, in increasing order.
    pub open spec fn candidates(self) -> Seq<u8> {
        all_multipliers().filter(self.allowed())
    }

    /// The state after `multiplier` has been given out.
    pub open spec fn record(self, multiplier: u8) -> StateView {
        StateView {
            used_zero: self.used_zero || multiplier == 0,
            used_one: self.used_one || multiplier == 1,
            used_ten: self.used_ten || multiplier == 10,
            recent: slide(self.recent, multiplier),
        }
    }

    /// Whether this is the state reached after giving out `history`, in order.
    pub open spec fn tracks(self, history: Seq<u8>) -> bool {
        &&& self.used_zero == history.contains(0u8)
        &&& self.used_one == history.contains(1u8)
        &&& self.used_ten == history.contains(10u8)
        &&& self.recent == keep_last(history, RECENT_WINDOW as nat)
    }
}

/// The initial state is the state after an empty history.
pub proof fn lemma_initial_tracks()
    ensures
        StateView::initial().tracks(Seq::empty()),
        StateView::initial().wf(),
{
    assert(keep_last(Seq::<u8>::empty(), RECENT_WINDOW as nat) =~= Seq::<u8>::empty());
}

/// A state that is in step with a history has its window within bounds.
pub proof fn lemma_tracking_is_wf(state: StateView, history: Seq<u8>)
    requires
        state.tracks(history),
    ensures
        state.wf(),
{
}

/// Recording a multiplier keeps the window within its bound.
pub proof fn lemma_record_keeps_wf(state: StateView, multiplier: u8)
    requires
        state.wf(),
    ensures
        state.record(multiplier).wf(),
{
}

/// Recording a multiplier keeps the state in step with the history.
pub proof fn lemma_record_tracks(state: StateView, history: Seq<u8>, multiplier: u8)
    requires
        state.tracks(history),
    ensures
        state.record(multiplier).tracks(history.push(multiplier)),
{
    let longer = history.push(multiplier);
    assert(longer[history.len() as int] == multiplier);
    assert forall|rare: u8| longer.contains(rare) <==> (history.contains(rare) || multiplier == rare) by {
        if history.contains(rare) {
            let i = choose|i: int| 0 <= i < history.len() && history[i] == rare;
            assert(longer[i] == rare);
        }
        if longer.contains(rare) {
            let i = choose|i: int| 0 <= i < longer.len() && longer[i] == rare;
            if i < history.len() {
                assert(history[i] == rare);
            }
        }
    }
    assert(slide(keep_last(history, RECENT_WINDOW as nat), multiplier) =~= keep_last(
        longer,
        RECENT_WINDOW as nat,
    ));
}

/// A multiplier is a candidate exactly when the state allows it.
pub proof fn lemma_candidates_exact(state: StateView, multiplier: u8)
    ensures
        state.candidates().contains(multiplier) <==> state.allows(multiplier),
{
    let all = all_multipliers();
    let allowed = state.allowed();
    broadcast use Seq::lemma_filter_pred, Seq::lemma_filter_contains;

    if state.candidates().contains(multiplier) {
        let i = choose|i: int| 0 <= i < all.filter(allowed).len() && all.filter(allowed)[i] == multiplier;
        assert(allowed(all.filter(allowed)[i]));
    }
    if state.allows(multiplier) {
        assert(all[multiplier as int] == multiplier);
        assert(allowed(all[multiplier as int]));
    }
}

/// The candidates come in strictly increasing order, so none occurs twice.
pub proof fn lemma_candidates_increasing(state: StateView, i: int, j: int)
    requires
        0 <= i < j < state.candidates().len(),
    ensures
        state.candidates()[i] < state.candidates()[j],
{
    lemma_filter_increasing(all_multipliers(), state.allowed(), i, j);
}

proof fn lemma_filter_increasing(s: Seq<u8>, keep: spec_fn(u8) -> bool, i: int, j: int)
    requires
        forall|a: int, b: int| 0 <= a < b < s.len() ==> s[a] < s[b],
        0 <= i < j < s.filter(keep).len(),
    ensures
        s.filter(keep)[i] < s.filter(keep)[j],
    decreases s.len(),
{
    reveal(Seq::filter);
    broadcast use Seq::lemma_filter_len;

    if s.len() > 0 {
        let rest = s.drop_last();
        let kept = rest.filter(keep);
        if j < kept.len() {
            lemma_filter_increasing(rest, keep, i, j);
        } else {
            // `j` is the last place, which holds the last element of `s`.
            rest.lemma_filter_contains_rev(keep, kept[i]);
            let a = choose|a: int| 0 <= a < rest.len() && rest[a] == kept[i];
            assert(s[a] < s[s.len() - 1]);
        }
    }
}

/// Whatever the state, as long as its window is within bounds, at least one
/// multiplier is allowed: the spare is never needed.
pub proof fn lemma_candidates_nonempty(state: StateView)
    requires
        state.wf(),
    ensures
        state.candidates().len() > 0,
        exists|multiplier: u8| state.allows(multiplier),
{
    let recent = state.recent;
    // Five multipliers that are never spent cannot all sit in a window of four.
    if recent.contains(2u8) && recent.contains(3u8) && recent.contains(4u8) && recent.contains(5u8)
        && recent.contains(6u8) {
        let i2 = choose|i: int| 0 <= i < recent.len() && recent[i] == 2u8;
        let i3 = choose|i: int| 0 <= i < recent.len() && recent[i] == 3u8;
        let i4 = choose|i: int| 0 <= i < recent.len() && recent[i] == 4u8;
        let i5 = choose|i: int| 0 <= i < recent.len() && recent[i] == 5u8;
        let i6 = choose|i: int| 0 <= i < recent.len() && recent[i] == 6u8;
        assert(false);
    }
    let free: u8 = if !recent.contains(2u8) {
        2
    } else if !recent.contains(3u8) {
        3
    } else if !recent.contains(4u8) {
        4
    } else if !recent.contains(5u8) {
        5
    } else {
        6
    };
    assert(state.allows(free));
    lemma_candidates_exact(state, free);
}

/// Giving out a multiplier that the state allows keeps both variety rules.
pub proof fn lemma_allowed_keeps_rules(state: StateView, history: Seq<u8>, multiplier: u8)
    requires
        state.tracks(history),
        state.allows(multiplier),
        rare_at_most_once(history),
        no_close_repeat(history),
    ensures
        rare_at_most_once(history.push(multiplier)),
        no_close_repeat(history.push(multiplier)),
{
    let longer = history.push(multiplier);
    let n = history.len() as int;
    assert forall|i: int, j: int| 0 <= i < j < longer.len() && is_rare(longer[i]) implies longer[i]
        != longer[j] by {
        if j == n {
            assert(history[i] == longer[i]);
            assert(history.contains(longer[i]));
        } else {
            assert(history[i] == longer[i] && history[j] == longer[j]);
        }
    }
    assert forall|i: int, j: int|
        0 <= i < j < longer.len() && j - i <= RECENT_WINDOW implies longer[i] != longer[j] by {
        if j == n {
            let window = keep_last(history, RECENT_WINDOW as nat);
            if n <= RECENT_WINDOW {
                assert(window[i] == history[i]);
            } else {
                assert(window[i - (n - RECENT_WINDOW)] == history[i]);
            }
            assert(window.contains(history[i]));
        } else {
            assert(history[i] == longer[i] && history[j] == longer[j]);
        }
    }
}

/// Giving out the spare, which is never a rare multiplier, keeps every rare
/// multiplier at one occurrence at most.
pub proof fn lemma_spare_keeps_first_use(history: Seq<u8>, spare: u8)
    requires
        rare_at_most_once(history),
        SPARE_LOW <= spare <= SPARE_HIGH,
    ensures
        rare_at_most_once(history.push(spare)),
{
    let longer = history.push(spare);
    assert forall|i: int, j: int| 0 <= i < j < longer.len() && is_rare(longer[i]) implies longer[i]
        != longer[j] by {
        if j < history.len() {
            assert(history[i] == longer[i] && history[j] == longer[j]);
        }
    }
}

/// Any four multipliers in a row are pairwise different.
pub proof fn lemma_windows_of_four_distinct(multipliers: Seq<u8>, start: int)
    requires
        no_close_repeat(multipliers),
        0 <= start,
        start + 4 <= multipliers.len(),
    ensures
        multipliers.subrange(start, start + 4).no_duplicates(),
{
    let window = multipliers.subrange(start, start + 4);
    assert forall|i: int, j: int|
        0 <= i < window.len() && 0 <= j < window.len() && i != j implies window[i] != window[j] by {
        if i < j {
            assert(multipliers[start + i] != multipliers[start + j]);
        } else {
            assert(multipliers[start + j] != multipliers[start + i]);
        }
    }
}

/// A rare multiplier stands at one place of the worksheet at most.
pub proof fn lemma_rare_stands_once(multipliers: Seq<u8>, i: int, j: int)
    requires
        rare_at_most_once(multipliers),
        0 <= i < multipliers.len(),
        0 <= j < multipliers.len(),
        multipliers[i] == multipliers[j],
        is_rare(multipliers[i]),
    ensures
        i == j,
{
    if i < j {
        assert(multipliers[i] != multipliers[j]);
    }
    if j < i {
        assert(multipliers[j] != multipliers[i]);
    }
}

} // verus!
