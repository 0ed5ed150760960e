//! Random draws of catalog positions.

use rand::Rng;
use vstd::prelude::*;

verus! {

/// The number of options that a question offers.
pub const OPTION_COUNT: usize = 4;

/// The number of repeated draws that are thrown away before the remaining
/// options are drawn among the unused positions only.
pub const REDRAW_LIMIT: usize = 64;

/// A position drawn at random from `0..length`.
///
/// Calls `rand::Rng::gen_range` on the thread's generator with the range
/// `0..length`. That function panics on an empty range, so `length` must be
/// positive; whatever it draws lies inside the range, and nothing more is
/// claimed of it.
#[verifier::external_body]
pub(crate) fn get_random_index(length: usize) -> (index: usize)
    requires
        length > 0,
    ensures
        index < length,
{
    rand::thread_rng().gen_range(0..length)
}

/// Every position in `choices` lies below `length`.
pub open spec fn all_below(choices: Seq<usize>, length: nat) -> bool {
    forall|i: int| 0 <= i < choices.len() ==> choices[i] < length
}

/// The number of positions below `bound` that do not occur in `choices`.
pub open spec fn unused_below(choices: Seq<usize>, bound: nat) -> nat
    decreases bound,
{
    if bound == 0 {
        0
    } else if choices.contains((bound - 1) as usize) {
        unused_below(choices, (bound - 1) as nat)
    } else {
        unused_below(choices, (bound - 1) as nat) + 1
    }
}

proof fn lemma_unused_of_none(bound: nat)
    ensures
        unused_below(Seq::empty(), bound) == bound,
    decreases bound,
{
    if bound > 0 {
        lemma_unused_of_none((bound - 1) as nat);
    }
}

proof fn lemma_unused_after_push(taken: Seq<usize>, position: usize, bound: nat)
    requires
        bound <= usize::MAX + 1,
    ensures
        unused_below(taken.push(position), bound) + (if position < bound {
            1nat
        } else {
            0nat
        }) >= unused_below(taken, bound),
    decreases bound,
{
    if bound > 0 {
        lemma_unused_after_push(taken, position, (bound - 1) as nat);
    }
}

/// However many positions are taken, at least `bound - choices.len()`
/// positions below `bound` are left.
pub proof fn lemma_unused_count(choices: Seq<usize>, bound: nat)
    requires
        bound <= usize::MAX + 1,
    ensures
        unused_below(choices, bound) + choices.len() >= bound,
    decreases choices.len(),
{
    if choices.len() == 0 {
        assert(choices =~= Seq::empty());
        lemma_unused_of_none(bound);
    } else {
        let taken = choices.drop_last();
        assert(choices =~= taken.push(choices.last()));
        lemma_unused_count(taken, bound);
        lemma_unused_after_push(taken, choices.last(), bound);
    }
}

/// Whether `value` occurs in `choices`.
pub fn holds(choices: &Vec<usize>, value: usize) -> (found: bool)
    ensures
        found == choices@.contains(value),
{
    let mut i: usize = 0;
    while i < choices.len()
        invariant
            i <= choices.len(),
            forall|j: int| 0 <= j < i ==> choices@[j] != value,
        decreases choices.len() - i,
    {
        if choices[i] == value {
            return true;
        }
        i += 1;
    }
    false
}

/// Appends `draw` to `choices` unless it is there already, and says whether
/// it was appended.
pub fn take_if_new(choices: &mut Vec<usize>, draw: usize) -> (taken: bool)
    ensures
        taken == !old(choices)@.contains(draw),
        final(choices)@ == if taken {
            old(choices)@.push(draw)
        } else {
            old(choices)@
        },
{
    if holds(choices, draw) {
        false
    } else {
        choices.push(draw);
        true
    }
}

/// The position below `length` that does not occur in `choices` and has
/// exactly `rank` such positions before it.
pub fn nth_unused(choices: &Vec<usize>, length: usize, rank: usize) -> (index: usize)
    requires
        rank + choices.len() < length,
    ensures
        index < length,
        !choices@.contains(index),
        unused_below(choices@, index as nat) == rank,
{
    let mut candidate: usize = 0;
    let mut passed: usize = 0;
    loop
        invariant
            candidate <= length,
            passed <= rank,
            passed == unused_below(choices@, candidate as nat),
            rank + choices.len() < length,
        decreases length - candidate,
    {
        proof {
            lemma_unused_count(choices@, candidate as nat);
        }
        if !holds(choices, candidate) {
            if passed == rank {
                return candidate;
            }
            passed += 1;
        }
        candidate += 1;
    }
}

/// No position occurs twice in `choices`.
pub open spec fn all_differ(choices: Seq<usize>) -> bool {
    forall|i: int, j: int| 0 <= i < j < choices.len() ==> choices[i] != choices[j]
}

/// Four different positions below `length`, drawn at random and kept in the
/// order in which they were drawn.
///
/// Each position is drawn from the whole range, and a draw that repeats an
/// earlier one is thrown away and made again. Once `redraw_limit` draws have
/// been thrown away, each remaining position is drawn among the unused ones
/// directly, by its rank among them, so that the function returns whatever
/// the generator yields.
pub fn draw_four(length: usize, redraw_limit: usize) -> (choices: Vec<usize>)
    requires
        length >= OPTION_COUNT,
    ensures
        choices@.len() == OPTION_COUNT,
        all_below(choices@, length as nat),
        all_differ(choices@),
{
    let mut choices: Vec<usize> = Vec::new();
    let mut redrawn: usize = 0;
    while choices.len() < OPTION_COUNT
        invariant
            length >= OPTION_COUNT,
            choices@.len() <= OPTION_COUNT,
            redrawn <= redraw_limit,
            all_below(choices@, length as nat),
            all_differ(choices@),
        decreases OPTION_COUNT - choices@.len(), redraw_limit - redrawn,
    {
        if redrawn < redraw_limit {
            let draw = get_random_index(length);
            if !take_if_new(&mut choices, draw) {
                redrawn += 1;
            }
        } else {
            let rank = get_random_index(length - choices.len());
            let index = nth_unused(&choices, length, rank);
            choices.push(index);
        }
    }
    choices
}

/// Four different positions below `length`, drawn at random as `draw_four`
/// draws them, with `REDRAW_LIMIT` repeated draws to throw away.
pub fn get_four_random_choice(length: usize) -> (choices: Vec<usize>)
    requires
        length >= OPTION_COUNT,
    ensures
        choices@.len() == OPTION_COUNT,
        all_below(choices@, length as nat),
        all_differ(choices@),
{
    draw_four(length, REDRAW_LIMIT)
}

} // verus!
