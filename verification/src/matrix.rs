//! The authoritative key state model: a fixed-size grid of per-key
//! records, mutated only by decoded press messages.
//!
//! Timestamps are plain integers (microseconds on a monotonic clock); the
//! caller of the mutation path supplies them, so every record is an exact
//! function of the event sequence it has seen.

use vstd::prelude::*;

verus! {

/// Per-key record: whether the key is down, when it last went down, and
/// when it was last observed down.
#[derive(Clone, Copy, PartialEq, Eq, Debug)]
pub struct KeyState {
    /// When the key last went from released to pressed, if ever.
    pub last_down: Option<u64>,
    /// When the key was last observed pressed, if ever.
    pub last_pressed: Option<u64>,
    /// Whether the most recent event for this key was a press.
    pub is_pressed: bool,
}

impl Default for KeyState {
    /// A key that has never been seen: up, with no recorded times.
    fn default() -> (r: KeyState)
        ensures
            r == (KeyState { last_down: None, last_pressed: None, is_pressed: false }),
    {
        KeyState { last_down: None, last_pressed: None, is_pressed: false }
    }
}

/// One press event applied to one key record: `last_down` moves only on
/// a released-to-pressed transition, `last_pressed` moves on every
/// pressed observation, and `is_pressed` always takes the event's flag.
pub open spec fn spec_apply_press(ks: KeyState, pressed: bool, now: u64) -> KeyState {
    KeyState {
        last_down: if pressed && !ks.is_pressed {
            Some(now)
        } else {
            ks.last_down
        },
        last_pressed: if pressed {
            Some(now)
        } else {
            ks.last_pressed
        },
        is_pressed: pressed,
    }
}

/// A key record after a whole sequence of (pressed, time) events.
pub open spec fn spec_run_presses(ks: KeyState, events: Seq<(bool, u64)>) -> KeyState
    decreases events.len(),
{
    if events.len() == 0 {
        ks
    } else {
        spec_run_presses(spec_apply_press(ks, events[0].0, events[0].1), events.drop_first())
    }
}

/// Running one more event equals applying it to the state so far.
pub proof fn lemma_run_presses_snoc(ks: KeyState, events: Seq<(bool, u64)>, e: (bool, u64))
    ensures
        spec_run_presses(ks, events.push(e)) == spec_apply_press(
            spec_run_presses(ks, events),
            e.0,
            e.1,
        ),
    decreases events.len(),
{
    if events.len() == 0 {
        assert(events.push(e)[0] == e);
        assert(events.push(e).drop_first() =~= Seq::<(bool, u64)>::empty());
        assert(spec_run_presses(spec_apply_press(ks, e.0, e.1), Seq::<(bool, u64)>::empty())
            == spec_apply_press(ks, e.0, e.1));
    } else {
        assert(events.push(e).drop_first() =~= events.drop_first().push(e));
        assert(events.push(e)[0] == events[0]);
        lemma_run_presses_snoc(spec_apply_press(ks, events[0].0, events[0].1), events.drop_first(), e);
        assert(spec_run_presses(ks, events.push(e)) == spec_run_presses(
            spec_apply_press(ks, events[0].0, events[0].1),
            events.drop_first().push(e),
        ));
    }
}

/// After any non-empty event sequence, `is_pressed` equals the most
/// recent event's flag.
pub proof fn lemma_is_pressed_tracks_last(ks: KeyState, events: Seq<(bool, u64)>)
    requires
        events.len() > 0,
    ensures
        spec_run_presses(ks, events).is_pressed == events.last().0,
    decreases events.len(),
{
    if events.len() == 1 {
        assert(events.drop_first().len() == 0);
        assert(spec_run_presses(ks, events) == spec_run_presses(
            spec_apply_press(ks, events[0].0, events[0].1),
            events.drop_first(),
        ));
        assert(spec_run_presses(spec_apply_press(ks, events[0].0, events[0].1), events.drop_first())
            == spec_apply_press(ks, events[0].0, events[0].1));
    } else {
        lemma_is_pressed_tracks_last(
            spec_apply_press(ks, events[0].0, events[0].1),
            events.drop_first(),
        );
        assert(events.drop_first().last() == events.last());
    }
}

/// Along any event sequence, `last_down` changes at step `i` only on a
/// released-to-pressed transition; on such a transition it takes that
/// event's time; and a repeated press never re-triggers it.
pub proof fn lemma_last_down_transitions(ks: KeyState, events: Seq<(bool, u64)>, i: int)
    requires
        0 <= i < events.len(),
    ensures
        ({
            let before = spec_run_presses(ks, events.take(i));
            let after = spec_run_presses(ks, events.take(i + 1));
            &&& (after.last_down != before.last_down ==> events[i].0 && !before.is_pressed)
            &&& (events[i].0 && !before.is_pressed ==> after.last_down == Some(events[i].1))
            &&& (events[i].0 && before.is_pressed ==> after.last_down == before.last_down)
        }),
{
    assert(events.take(i + 1) =~= events.take(i).push(events[i]));
    lemma_run_presses_snoc(ks, events.take(i), events[i]);
}

/// The key/press state of the whole keyboard: a grid of `rows * cols`
/// key records, fixed in size once built.
pub struct KeyMatrix {
    /// The grid, row-major: `grid[row][col]`.
    pub grid: Vec<Vec<KeyState>>,
}

impl KeyMatrix {
    /// Number of rows of the grid.
    pub open spec fn rows(self) -> int {
        self.grid@.len() as int
    }

    /// Number of columns of the grid.
    pub open spec fn cols(self) -> int {
        if self.grid@.len() == 0 {
            0
        } else {
            self.grid@[0]@.len() as int
        }
    }

    /// A well-formed grid is rectangular.
    pub open spec fn wf(self) -> bool {
        forall|r: int| 0 <= r < self.grid@.len() ==> (#[trigger] self.grid@[r])@.len() == self.cols()
    }

    /// The record at one position.
    pub open spec fn at(self, row: int, col: int) -> KeyState {
        self.grid@[row]@[col]
    }

    /// Builds a grid of the given size with every key unseen.
    pub fn new(rows: u8, cols: u8) -> (r: KeyMatrix)
        ensures
            r.wf(),
            r.rows() == rows,
            r.cols() == cols || rows == 0,
            rows == 0 ==> r.cols() == 0,
            forall|i: int, j: int|
                0 <= i < rows && 0 <= j < cols ==> r.at(i, j) == (KeyState {
                    last_down: None,
                    last_pressed: None,
                    is_pressed: false,
                }),
    {
        let mut grid: Vec<Vec<KeyState>> = Vec::new();
        let mut i: u8 = 0;
        while i < rows
            invariant
                i <= rows,
                grid@.len() == i,
                forall|r: int|
                    0 <= r < i ==> (#[trigger] grid@[r])@.len() == cols,
                forall|r: int, c: int|
                    0 <= r < i && 0 <= c < cols ==> grid@[r]@[c] == (KeyState {
                        last_down: None,
                        last_pressed: None,
                        is_pressed: false,
                    }),
            decreases rows - i,
        {
            let mut row: Vec<KeyState> = Vec::new();
            let mut j: u8 = 0;
            while j < cols
                invariant
                    j <= cols,
                    row@.len() == j,
                    forall|c: int|
                        0 <= c < j ==> row@[c] == (KeyState {
                            last_down: None,
                            last_pressed: None,
                            is_pressed: false,
                        }),
                decreases cols - j,
            {
                row.push(KeyState::default());
                j = j + 1;
            }
            grid.push(row);
            i = i + 1;
        }
        KeyMatrix { grid }
    }

    /// Applies one press event at one position. Only that record moves,
    /// and it moves exactly as `spec_apply_press` says.
    pub fn apply_press(&mut self, row: u8, col: u8, pressed: bool, now: u64)
        requires
            old(self).wf(),
            (row as int) < old(self).rows(),
            (col as int) < old(self).cols(),
        ensures
            final(self).wf(),
            final(self).rows() == old(self).rows(),
            final(self).cols() == old(self).cols(),
            final(self).at(row as int, col as int) == spec_apply_press(
                old(self).at(row as int, col as int),
                pressed,
                now,
            ),
            forall|i: int, j: int|
                0 <= i < old(self).rows() && 0 <= j < old(self).cols() && !(i == row as int && j
                    == col as int) ==> final(self).at(i, j) == old(self).at(i, j),
    {
        let row_ref = &mut self.grid[row as usize];
        let cell = &mut row_ref[col as usize];
        let prev = *cell;
        *cell = KeyState {
            last_down: if pressed && !prev.is_pressed {
                Some(now)
            } else {
                prev.last_down
            },
            last_pressed: if pressed {
                Some(now)
            } else {
                prev.last_pressed
            },
            is_pressed: pressed,
        };
    }

    /// A fully independent deep copy of the grid, fit to cross the
    /// snapshot boundary.
    pub fn snapshot(&self) -> (r: Vec<Vec<KeyState>>)
        ensures
            r@.len() == self.grid@.len(),
            forall|i: int|
                0 <= i < r@.len() ==> (#[trigger] r@[i])@ == self.grid@[i]@,
    {
        let mut out: Vec<Vec<KeyState>> = Vec::new();
        let mut i: usize = 0;
        while i < self.grid.len()
            invariant
                i <= self.grid@.len(),
                out@.len() == i,
                forall|r: int|
                    0 <= r < i ==> (#[trigger] out@[r])@ == self.grid@[r]@,
            decreases self.grid@.len() - i,
        {
            let src = &self.grid[i];
            let mut row: Vec<KeyState> = Vec::new();
            let mut j: usize = 0;
            while j < src.len()
                invariant
                    j <= src@.len(),
                    row@.len() == j,
                    forall|c: int| 0 <= c < j ==> row@[c] == src@[c],
                decreases src@.len() - j,
            {
                row.push(src[j]);
                j = j + 1;
            }
            proof {
                assert(row@ =~= src@);
            }
            out.push(row);
            i = i + 1;
        }
        out
    }
}

} // verus!
