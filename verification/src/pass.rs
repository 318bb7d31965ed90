//! What a whole pass of the scanner comes to, when every command is carried
//! out and answered as the lines read: the first press in scan order is the
//! one that is sent, and every active cell up to it is stamped.

use crate::debounce::{cell_index, is_press, CELLS};
use crate::grid::{message_of, COLS, ROWS};
use crate::scanner::{
    out_of_time, state_wf, step, ScanCommand, ScanEvent, ScanPhase, ScanState, Scanner,
};
use vstd::prelude::*;

verus! {

/// The answer that the lines give to the pending command: columns read as
/// `levels` says for the row that is driven, and everything else is done.
pub open spec fn answer(s: ScanState, levels: spec_fn(int, int) -> bool) -> ScanEvent {
    match s.phase {
        ScanPhase::Sampling => ScanEvent::Clock(s.now),
        ScanPhase::Probing { row, col } => ScanEvent::Level(levels(row as int, col as int)),
        _ => ScanEvent::Done,
    }
}

/// How many commands a pass has yet to issue before it ends, at most.
pub open spec fn steps_left(phase: ScanPhase) -> nat {
    match phase {
        ScanPhase::Raising { row } => if row < ROWS {
            ((ROWS - row) * 7) as nat
        } else {
            0
        },
        ScanPhase::Probing { row, col } => if row < ROWS && col < COLS {
            ((ROWS - row) * 7 - 1 - col) as nat
        } else {
            0
        },
        ScanPhase::Lowering { row, hit } => if row < ROWS {
            ((ROWS - row) * 7 - 6) as nat
        } else {
            0
        },
        _ => 0,
    }
}

/// The scanner at the end of the pass that is under way: where it next asks
/// for the clock, sends a message, or has stopped.
pub open spec fn finished(s: ScanState, levels: spec_fn(int, int) -> bool) -> ScanState
    decreases steps_left(s.phase),
{
    if steps_left(s.phase) > 0 && steps_left(step(s, answer(s, levels)).phase) < steps_left(
        s.phase,
    ) {
        finished(step(s, answer(s, levels)), levels)
    } else {
        s
    }
}

/// The scanner after a whole pass that begins with the clock at `now`.
pub open spec fn passed(s: ScanState, now: u64, levels: spec_fn(int, int) -> bool) -> ScanState {
    finished(step(s, ScanEvent::Clock(now)), levels)
}

/// Whether the cell that stands at `index` in scan order reads active.
pub open spec fn active(levels: spec_fn(int, int) -> bool, index: int) -> bool {
    levels(index / (COLS as int), index % (COLS as int))
}

/// The first cell in scan order, from `from` on, that reads active and whose
/// signal is a press; the number of cells if there is none.
pub open spec fn first_press(
    stamps: Seq<u64>,
    now: u64,
    levels: spec_fn(int, int) -> bool,
    from: int,
) -> int
    decreases CELLS - from,
{
    if from < 0 || from >= CELLS {
        CELLS as int
    } else if active(levels, from) && is_press(stamps[from] as int, now as int) {
        from
    } else {
        first_press(stamps, now, levels, from + 1)
    }
}

/// The stamps after the cells from `from` up to and with `to` were read: those
/// that read active are stamped `now`, and the others are as they were.
pub open spec fn stamped(
    stamps: Seq<u64>,
    now: u64,
    levels: spec_fn(int, int) -> bool,
    from: int,
    to: int,
) -> Seq<u64> {
    Seq::new(
        CELLS as nat,
        |i: int|
            if from <= i <= to && active(levels, i) {
                now
            } else {
                stamps[i]
            },
    )
}

/// The phase in which a pass ends when its first press is the cell at `hit`.
pub open spec fn end_phase(hit: int) -> ScanPhase {
    if 0 <= hit < CELLS {
        ScanPhase::Sending {
            msg: message_of(hit / (COLS as int), hit % (COLS as int)) as u32,
        }
    } else {
        ScanPhase::Sampling
    }
}

/// The cell in scan order at which a phase of a pass stands: the next cell
/// that it will read.
pub open spec fn next_cell(phase: ScanPhase) -> int {
    match phase {
        ScanPhase::Raising { row } => cell_index(row as int, 0),
        ScanPhase::Probing { row, col } => cell_index(row as int, col as int),
        ScanPhase::Lowering { row, hit } => cell_index(row as int + 1, 0),
        _ => CELLS as int,
    }
}

/// Whether a press is a cell of the stamps from `from` on does not depend on
/// the stamps before `from`.
proof fn lemma_first_press_looks_ahead(
    a: Seq<u64>,
    b: Seq<u64>,
    now: u64,
    levels: spec_fn(int, int) -> bool,
    from: int,
)
    requires
        a.len() == CELLS,
        b.len() == CELLS,
        forall|i: int| from <= i < CELLS ==> a[i] == b[i],
    ensures
        first_press(a, now, levels, from) == first_press(b, now, levels, from),
        from <= first_press(a, now, levels, from) || first_press(a, now, levels, from) == CELLS,
        first_press(a, now, levels, from) <= CELLS,
    decreases CELLS - from,
{
    if 0 <= from < CELLS {
        lemma_first_press_looks_ahead(a, b, now, levels, from + 1);
    }
}

/// From any phase within a pass on, with no press found yet: the pass ends at
/// the first press among the cells still to be read, having stamped every
/// active cell up to it.
proof fn lemma_rest_of_pass(s: ScanState, levels: spec_fn(int, int) -> bool)
    requires
        state_wf(s),
        s.phase is Raising || s.phase is Probing || (s.phase matches ScanPhase::Lowering {
            row,
            hit,
        } && hit is None),
    ensures
        ({
            let from = next_cell(s.phase);
            let hit = first_press(s.stamps, s.now, levels, from);
            let end = finished(s, levels);
            &&& end.stamps == stamped(s.stamps, s.now, levels, from, hit)
            &&& end.phase == end_phase(hit)
            &&& end.now == s.now
            &&& end.limit == s.limit
        }),
    decreases steps_left(s.phase),
{
    let from = next_cell(s.phase);
    let hit = first_press(s.stamps, s.now, levels, from);
    let next = step(s, answer(s, levels));
    lemma_first_press_looks_ahead(s.stamps, s.stamps, s.now, levels, from);
    crate::scanner::lemma_step_keeps_invariant(s, answer(s, levels));
    match s.phase {
        ScanPhase::Raising { row } => {
            assert(next.phase == (ScanPhase::Probing { row, col: 0 }));
            lemma_rest_of_pass(next, levels);
        },
        ScanPhase::Probing { row, col } => {
            assert(from / (COLS as int) == row && from % (COLS as int) == col);
            if levels(row as int, col as int) && is_press(s.stamps[from] as int, s.now as int) {
                assert(hit == from);
                assert(next.phase == (ScanPhase::Lowering {
                    row,
                    hit: Some(message_of(row as int, col as int) as u32),
                }));
                let last = step(next, answer(next, levels));
                assert(last.phase == (ScanPhase::Sending {
                    msg: message_of(row as int, col as int) as u32,
                }));
                assert(finished(last, levels) == last);
                assert(finished(next, levels) == last);
                assert(last.stamps =~= stamped(s.stamps, s.now, levels, from, hit));
            } else {
                assert(next_cell(next.phase) == from + 1);
                lemma_first_press_looks_ahead(s.stamps, next.stamps, s.now, levels, from + 1);
                lemma_rest_of_pass(next, levels);
                assert(hit == first_press(next.stamps, next.now, levels, from + 1));
                assert(stamped(next.stamps, s.now, levels, from + 1, hit) =~= stamped(
                    s.stamps,
                    s.now,
                    levels,
                    from,
                    hit,
                ));
            }
        },
        ScanPhase::Lowering { row, hit: _ } => {
            if row + 1 < ROWS {
                assert(next.phase == (ScanPhase::Raising { row: (row + 1) as usize }));
                lemma_rest_of_pass(next, levels);
            } else {
                assert(next.phase == ScanPhase::Sampling);
                assert(from == CELLS);
                assert(finished(next, levels) == next);
                assert(next.stamps =~= stamped(s.stamps, s.now, levels, from, hit));
            }
        },
        _ => {},
    }
}

/// A whole pass. With the clock at `now` and the lines reading as `levels`
/// says, the scanner sends the message of the first cell in scan order that
/// reads active at least a window after it was last seen, and no other; it
/// stamps that cell and every active cell before it, and leaves the cells
/// behind it unread. With no such cell it sends nothing, stamps every active
/// cell, and is ready for the next pass.
pub proof fn lemma_pass(s: ScanState, now: u64, levels: spec_fn(int, int) -> bool)
    requires
        state_wf(s),
        s.phase is Sampling,
        s.now <= now,
        !out_of_time(s.limit, now),
    ensures
        ({
            let hit = first_press(s.stamps, now, levels, 0);
            let end = passed(s, now, levels);
            &&& state_wf(end)
            &&& end.now == now
            &&& end.stamps == stamped(s.stamps, now, levels, 0, hit)
            &&& end.phase == end_phase(hit)
            &&& hit < CELLS ==> active(levels, hit) && is_press(s.stamps[hit] as int, now as int)
            &&& forall|i: int|
                0 <= i < hit && i < CELLS && active(levels, i) ==> !is_press(
                    #[trigger] s.stamps[i] as int,
                    now as int,
                )
        }),
{
    let begun = step(s, ScanEvent::Clock(now));
    crate::scanner::lemma_step_keeps_invariant(s, ScanEvent::Clock(now));
    lemma_rest_of_pass(begun, levels);
    lemma_first_press_is_first(s.stamps, now, levels, 0);
    let hit = first_press(s.stamps, now, levels, 0);
    let end = passed(s, now, levels);
    assert(state_wf(end)) by {
        assert forall|i: int| 0 <= i < CELLS implies #[trigger] end.stamps[i] <= end.now by {
            assert(s.stamps[i] <= s.now);
        }
        if hit < CELLS {
            crate::grid::lemma_round_trip(hit / (COLS as int), hit % (COLS as int));
        }
    }
}

/// The first press is a press, and no active cell before it is one.
proof fn lemma_first_press_is_first(
    stamps: Seq<u64>,
    now: u64,
    levels: spec_fn(int, int) -> bool,
    from: int,
)
    requires
        0 <= from,
    ensures
        ({
            let hit = first_press(stamps, now, levels, from);
            &&& from <= hit || hit == CELLS
            &&& hit <= CELLS
            &&& hit < CELLS ==> active(levels, hit) && is_press(stamps[hit] as int, now as int)
            &&& forall|i: int|
                from <= i < hit && i < CELLS && active(levels, i) ==> !is_press(
                    #[trigger] stamps[i] as int,
                    now as int,
                )
        }),
    decreases CELLS - from,
{
    if from < CELLS {
        lemma_first_press_is_first(stamps, now, levels, from + 1);
    }
}

/// The lines as a snapshot of the matrix says they read: the column `col`
/// reads active under the row `row` where the snapshot holds `true`.
pub open spec fn levels_of(snapshot: [[bool; COLS]; ROWS]) -> spec_fn(int, int) -> bool {
    |row: int, col: int| snapshot[row][col]
}

/// The message that a pass sends when its first press is the cell at `hit`,
/// if it is a cell.
pub open spec fn sent(hit: int) -> Option<u32> {
    if 0 <= hit < CELLS {
        Some(message_of(hit / (COLS as int), hit % (COLS as int)) as u32)
    } else {
        None
    }
}

/// Runs one whole pass of the scanner over a snapshot of the matrix, with the
/// clock at `now`, and returns the message that the pass sends, if any. The
/// message is that of the first cell in scan order that reads active a window
/// or more after it was last seen; that cell and every active cell before it
/// are stamped `now`. A scan that is out of time stops and reads nothing. The
/// scanner is left where it next asks for the clock, or stopped.
pub fn scan_pass(scanner: &mut Scanner, now: u64, snapshot: &[[bool; COLS]; ROWS]) -> (msg: Option<
    u32,
>)
    requires
        old(scanner).wf(),
        old(scanner)@.phase is Sampling,
        old(scanner)@.now <= now,
    ensures
        final(scanner).wf(),
        final(scanner)@.now == now,
        final(scanner)@.limit == old(scanner)@.limit,
        out_of_time(old(scanner)@.limit, now) ==> {
            &&& msg is None
            &&& final(scanner)@.stamps == old(scanner)@.stamps
            &&& final(scanner)@.phase is Stopped
        },
        !out_of_time(old(scanner)@.limit, now) ==> {
            let hit = first_press(old(scanner)@.stamps, now, levels_of(*snapshot), 0);
            &&& msg == sent(hit)
            &&& final(scanner)@.stamps == stamped(
                old(scanner)@.stamps,
                now,
                levels_of(*snapshot),
                0,
                hit,
            )
            &&& final(scanner)@.phase == if msg is Some && old(scanner)@.limit is Some {
                ScanPhase::Stopped
            } else {
                ScanPhase::Sampling
            }
        },
{
    let ghost levels = levels_of(*snapshot);
    let ghost end = passed(old(scanner)@, now, levels);
    proof {
        crate::scanner::lemma_step_keeps_invariant(old(scanner)@, ScanEvent::Clock(now));
        if !out_of_time(old(scanner)@.limit, now) {
            lemma_pass(old(scanner)@, now, levels);
        }
    }
    let mut command = scanner.advance(ScanEvent::Clock(now));
    loop
        invariant
            scanner.wf(),
            levels == levels_of(*snapshot),
            command == crate::scanner::command_of(scanner@.phase),
            finished(scanner@, levels) == end,
            scanner@.limit == old(scanner)@.limit,
        ensures
            scanner.wf(),
            command == crate::scanner::command_of(scanner@.phase),
            scanner@ == end,
            !(scanner@.phase is Raising || scanner@.phase is Probing || scanner@.phase is Lowering),
        decreases steps_left(scanner@.phase),
    {
        let event = match scanner.phase() {
            ScanPhase::Raising { row: _ } => ScanEvent::Done,
            ScanPhase::Probing { row, col } => ScanEvent::Level(snapshot[row][col]),
            ScanPhase::Lowering { row: _, hit: _ } => ScanEvent::Done,
            _ => {
                break;
            },
        };
        proof {
            if let ScanPhase::Probing { row, col } = scanner@.phase {
                assert(levels(row as int, col as int) == snapshot[row as int][col as int]);
            }
        }
        assert(event == answer(scanner@, levels));
        proof {
            crate::scanner::lemma_step_keeps_invariant(scanner@, event);
        }
        command = scanner.advance(event);
    }
    match command {
        ScanCommand::Send(msg) => {
            let _ = scanner.advance(ScanEvent::Done);
            Some(msg)
        },
        _ => None,
    }
}

/// At most one message comes of a pass, and a bounce never does: a pass over
/// cells that are all idle or seen less than a window ago sends nothing.
pub proof fn lemma_quiet_pass(s: ScanState, now: u64, levels: spec_fn(int, int) -> bool)
    requires
        state_wf(s),
        s.phase is Sampling,
        s.now <= now,
        !out_of_time(s.limit, now),
        forall|i: int|
            0 <= i < CELLS && active(levels, i) ==> !is_press(
                #[trigger] s.stamps[i] as int,
                now as int,
            ),
    ensures
        passed(s, now, levels).phase is Sampling,
{
    lemma_pass(s, now, levels);
    lemma_first_press_is_first(s.stamps, now, levels, 0);
}

} // verus!
