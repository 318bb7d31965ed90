//! Per-cell debounce timing: the table of the times at which each cell was
//! last seen active, and the rule that tells a press from a bounce.

use crate::grid::{encode, in_grid, legal_message, message_of, COLS};
use vstd::prelude::*;

verus! {

/// Two signals of one cell closer together than this many milliseconds are
/// one press.
pub const DEBOUNCE_WINDOW_MS: u64 = 50;

/// Number of cells of the grid.
pub const CELLS: usize = 20;

/// Where the cell `(row, col)` stands in a table that is laid out row by row.
pub open spec fn cell_index(row: int, col: int) -> int {
    row * COLS + col
}

/// Whether a signal seen at `now`, on a cell last seen active at `last`, is a
/// press of its own rather than a bounce.
pub open spec fn is_press(last: int, now: int) -> bool {
    now - last >= DEBOUNCE_WINDOW_MS
}

/// What seeing a cell active does: the cell's stamp becomes `now` whatever the
/// verdict, and the cell's message is emitted if the signal is a press.
pub open spec fn observed(stamps: Seq<u64>, row: int, col: int, now: u64) -> (Seq<u64>, Option<u32>) {
    (
        stamps.update(cell_index(row, col), now),
        if is_press(stamps[cell_index(row, col)] as int, now as int) {
            Some(message_of(row, col) as u32)
        } else {
            None
        },
    )
}

/// The time, in milliseconds, at which each cell was last seen active.
pub struct DebounceTable {
    stamps: Vec<u64>,
}

impl View for DebounceTable {
    type V = Seq<u64>;

    closed spec fn view(&self) -> Seq<u64> {
        self.stamps@
    }
}

impl DebounceTable {
    /// The table holds one stamp for each cell.
    pub open spec fn wf(&self) -> bool {
        self@.len() == CELLS
    }

    /// The time at which `(row, col)` was last seen active.
    pub open spec fn stamp(&self, row: int, col: int) -> u64
        recommends
            in_grid(row, col),
    {
        self@[cell_index(row, col)]
    }

    /// A table in which every cell was last seen at `start`.
    pub fn new(start: u64) -> (table: DebounceTable)
        ensures
            table.wf(),
            table@ == Seq::new(CELLS as nat, |i: int| start),
    {
        let mut stamps: Vec<u64> = Vec::new();
        let mut i: usize = 0;
        while i < CELLS
            invariant
                i <= CELLS,
                stamps@ == Seq::new(i as nat, |k: int| start),
            decreases CELLS - i,
        {
            stamps.push(start);
            i += 1;
        }
        DebounceTable { stamps }
    }

    /// The time at which `(row, col)` was last seen active.
    pub fn last_seen(&self, row: usize, col: usize) -> (t: u64)
        requires
            self.wf(),
            in_grid(row as int, col as int),
        ensures
            t == self.stamp(row as int, col as int),
    {
        self.stamps[row * COLS + col]
    }

    /// Records that `(row, col)` reads active at `now`. The stamp is set
    /// first; then the signal counts as a press, and the cell's message is
    /// returned, unless the cell was seen less than the window ago.
    pub fn observe(&mut self, row: usize, col: usize, now: u64) -> (msg: Option<u32>)
        requires
            old(self).wf(),
            in_grid(row as int, col as int),
            old(self).stamp(row as int, col as int) <= now,
        ensures
            final(self).wf(),
            (final(self)@, msg) == observed(old(self)@, row as int, col as int, now),
            msg is Some ==> legal_message(msg->0 as int),
    {
        let index: usize = row * COLS + col;
        let elapsed: u64 = now - self.stamps[index];
        self.stamps[index] = now;
        if elapsed < DEBOUNCE_WINDOW_MS {
            None
        } else {
            encode(row, col)
        }
    }
}

/// Of two signals of one cell, the first of them a press, the second is
/// dropped when it follows by less than the window and is a press of its own
/// otherwise: one event in the first case, two in the second.
pub proof fn lemma_debounce_pair(stamps: Seq<u64>, row: int, col: int, first: u64, second: u64)
    requires
        stamps.len() == CELLS,
        in_grid(row, col),
        is_press(stamps[cell_index(row, col)] as int, first as int),
        first <= second,
    ensures
        ({
            let (after_first, e1) = observed(stamps, row, col, first);
            let (after_second, e2) = observed(after_first, row, col, second);
            &&& e1 == Some(message_of(row, col) as u32)
            &&& second - first < DEBOUNCE_WINDOW_MS ==> e2 is None
            &&& second - first >= DEBOUNCE_WINDOW_MS ==> e2 == e1
            &&& after_second[cell_index(row, col)] == second
        }),
{
}

/// A cell that is seen active again and again, each time less than the window
/// after the time before, emits nothing, however long it is held.
pub proof fn lemma_held_cell_is_silent(stamps: Seq<u64>, row: int, col: int, times: Seq<u64>)
    requires
        stamps.len() == CELLS,
        in_grid(row, col),
        times.len() > 0 ==> times[0] - stamps[cell_index(row, col)] < DEBOUNCE_WINDOW_MS,
        forall|i: int| 0 < i < times.len() ==> #[trigger] times[i] - times[i - 1] < DEBOUNCE_WINDOW_MS,
    ensures
        events_of(stamps, row, col, times) == Seq::<u32>::empty(),
    decreases times.len(),
{
    if times.len() > 0 {
        let next = observed(stamps, row, col, times[0]).0;
        let rest = times.skip(1);
        assert forall|i: int| 0 < i < rest.len() implies #[trigger] rest[i] - rest[i - 1]
            < DEBOUNCE_WINDOW_MS by {
            assert(rest[i] == times[i + 1]);
            assert(rest[i - 1] == times[i]);
        }
        if rest.len() > 0 {
            assert(rest[0] == times[1]);
        }
        lemma_held_cell_is_silent(next, row, col, rest);
    }
}

/// The messages that a run of signals of one cell emits, in order.
pub open spec fn events_of(stamps: Seq<u64>, row: int, col: int, times: Seq<u64>) -> Seq<u32>
    decreases times.len(),
{
    if times.len() == 0 {
        Seq::empty()
    } else {
        let (next, event) = observed(stamps, row, col, times[0]);
        let rest = events_of(next, row, col, times.skip(1));
        match event {
            Some(msg) => seq![msg] + rest,
            None => rest,
        }
    }
}

} // verus!
