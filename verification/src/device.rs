//! Stream Deck device layer: which decks are accepted, and which presses a report
//! of the deck amounts to.
//!
//! Any deck whose grid matches is accepted: the MK.2 and its scissor-key revision
//! share the same 3×5 / 15-key / 72×72 geometry.

use vstd::prelude::*;

use crate::config::{GRID_COLS, GRID_ROWS, KEY_COUNT};

verus! {

/// Whether a deck has the 3×5 grid (15 keys) that coordinates are for. Any other is
/// refused rather than silently mis-mapped.
pub fn accepts_grid(rows: u8, cols: u8, keys: u8) -> (r: bool)
    ensures
        r == (rows == GRID_ROWS && cols == GRID_COLS && keys == KEY_COUNT),
{
    rows == GRID_ROWS && cols == GRID_COLS && keys as usize == KEY_COUNT
}

/// Whether a key was pressed: it is down, and was not before.
pub open spec fn rises(states: Seq<bool>, prev: Seq<bool>, i: int) -> bool {
    0 <= i < states.len() && i < KEY_COUNT && states[i] && !prev[i]
}

/// Whether `pressed` are the newly-pressed key indices (rising edges only), by a
/// report of the states of the keys, and `next` the states from then on.
pub open spec fn is_diff(
    states: Seq<bool>,
    prev: Seq<bool>,
    next: Seq<bool>,
    pressed: Seq<usize>,
) -> bool {
    &&& next.len() == prev.len()
    &&& forall|i: int|
        0 <= i < pressed.len() ==> rises(states, prev, #[trigger] pressed[i] as int)
    &&& forall|k: int| #[trigger] rises(states, prev, k) ==> pressed.contains(k as usize)
    &&& forall|k: int|
        0 <= k < KEY_COUNT ==> #[trigger] next[k] == (if k < states.len() {
            states[k]
        } else {
            prev[k]
        })
}

/// Whether `pressed` are the newly-pressed key indices, in order. No report yields
/// none and changes nothing.
pub open spec fn is_poll(
    states: Option<Seq<bool>>,
    prev: Seq<bool>,
    next: Seq<bool>,
    pressed: Seq<usize>,
) -> bool {
    &&& forall|i: int, j: int| 0 <= i < j < pressed.len() ==> pressed[i] < pressed[j]
    &&& match states {
        None => pressed.len() == 0 && next == prev,
        Some(s) => is_diff(s, prev, next, pressed),
    }
}

/// The newly-pressed key indices (rising edges only), in order, by diffing the
/// states of the keys against `prev_state`, which is updated in place. No report
/// (a timeout, or other input) yields none.
pub fn poll_presses(states: Option<&Vec<bool>>, prev_state: &mut Vec<bool>) -> (r: Vec<usize>)
    requires
        old(prev_state).len() == KEY_COUNT,
    ensures
        final(prev_state).len() == KEY_COUNT,
        is_poll(
            match states {
                Some(s) => Some(s@),
                None => None,
            },
            old(prev_state)@,
            final(prev_state)@,
            r@,
        ),
{
    let mut pressed: Vec<usize> = Vec::new();
    if let Some(states) = states {
        let mut i: usize = 0;
        while i < states.len() && i < KEY_COUNT
            invariant
                i <= states.len(),
                i <= KEY_COUNT,
                prev_state.len() == KEY_COUNT,
                old(prev_state).len() == KEY_COUNT,
                forall|k: int|
                    0 <= k < KEY_COUNT ==> #[trigger] prev_state@[k] == (if k < i {
                        states@[k]
                    } else {
                        old(prev_state)@[k]
                    }),
                forall|a: int, b: int| 0 <= a < b < pressed.len() ==> pressed@[a] < pressed@[b],
                forall|a: int|
                    0 <= a < pressed.len() ==> pressed@[a] < i && rises(
                        states@,
                        old(prev_state)@,
                        #[trigger] pressed@[a] as int,
                    ),
                forall|k: int|
                    k < i && #[trigger] rises(states@, old(prev_state)@, k) ==> pressed@.contains(
                        k as usize,
                    ),
            decreases KEY_COUNT - i,
        {
            let down = states[i];
            let ghost before = pressed@;
            if down && !prev_state[i] {
                pressed.push(i);
                proof {
                    assert(pressed@[before.len() as int] == i);
                    assert forall|k: int|
                        k < i + 1 && #[trigger] rises(
                            states@,
                            old(prev_state)@,
                            k,
                        ) implies pressed@.contains(k as usize) by {
                        if k < i {
                            assert(before.contains(k as usize));
                            let a = choose|a: int|
                                0 <= a < before.len() && before[a] == k as usize;
                            assert(pressed@[a] == k as usize);
                        }
                    }
                }
            }
            prev_state.set(i, down);
            i = i + 1;
        }
    }
    pressed
}

/// A key counts as pressed exactly where it is reported down and was up before, each
/// once and in ascending order, and what it is now is what counts the next time; a key
/// that a short report leaves out stays as it was.
pub proof fn presses_are_rising_edges(
    states: Seq<bool>,
    prev: Seq<bool>,
    next: Seq<bool>,
    pressed: Seq<usize>,
    k: usize,
)
    requires
        prev.len() == KEY_COUNT,
        is_poll(Some(states), prev, next, pressed),
        k < KEY_COUNT,
    ensures
        next.len() == KEY_COUNT,
        pressed.contains(k) <==> k < states.len() && states[k as int] && !prev[k as int],
        k < states.len() ==> next[k as int] == states[k as int],
        k >= states.len() ==> next[k as int] == prev[k as int],
        forall|i: int, j: int| 0 <= i < j < pressed.len() ==> pressed[i] < pressed[j],
{
    assert(rises(states, prev, k as int) <==> k < states.len() && states[k as int]
        && !prev[k as int]);
    if pressed.contains(k) {
        let i = choose|i: int| 0 <= i < pressed.len() && pressed[i] == k;
        assert(rises(states, prev, pressed[i] as int));
    }
}

/// A key that stays down is pressed once; without a report none is.
pub proof fn held_keys_are_pressed_once(
    states: Seq<bool>,
    prev: Seq<bool>,
    next: Seq<bool>,
    pressed: Seq<usize>,
    later: Seq<bool>,
    again: Seq<usize>,
)
    requires
        states.len() == KEY_COUNT,
        prev.len() == KEY_COUNT,
        is_poll(Some(states), prev, next, pressed),
    ensures
        is_poll(Some(states), next, later, again) ==> again.len() == 0,
        is_poll(None, next, later, again) ==> again.len() == 0 && later == next,
{
    if is_poll(Some(states), next, later, again) && again.len() > 0 {
        assert(rises(states, next, again[0] as int));
        assert(next[again[0] as int] == states[again[0] as int]);
    }
}

} // verus!
