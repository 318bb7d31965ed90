//! The matrix scanner as a state machine. The scanner decides; whoever owns
//! the row and column lines, the timer and the channel carries out each
//! command and reports what came of it.
//!
//! One pass samples the clock, then drives one row at a time and reads every
//! column under it. The first press that is found ends the pass: its row is
//! released, its message is sent, and the next pass starts at the first row
//! with a fresh clock sample.

use crate::debounce::{cell_index, is_press, observed, DebounceTable, CELLS};
use crate::grid::{in_grid, legal_message, message_of, COLS, ROWS};
use vstd::prelude::*;

verus! {

/// What the scanner asks to have done next.
#[derive(Debug, Copy, Clone, PartialEq, Eq, Structural)]
pub enum ScanCommand {
    /// Sample the monotonic clock, in milliseconds; answer with `Clock`.
    ReadClock,
    /// Drive the row line active; answer with `Done`.
    RaiseRow(usize),
    /// Read the column line; answer with `Level`.
    ReadColumn(usize),
    /// Release the row line; answer with `Done`.
    LowerRow(usize),
    /// Put the message into the channel, waiting for room; answer with `Done`.
    Send(u32),
    /// The scan is over: nothing more is asked, and no answer is awaited.
    Stop,
}

/// What came of the last command.
#[derive(Debug, Copy, Clone, PartialEq, Eq, Structural)]
pub enum ScanEvent {
    /// The clock reads this many milliseconds.
    Clock(u64),
    /// The line was driven, or the message was accepted.
    Done,
    /// Whether the column reads active.
    Level(bool),
}

/// Where in a pass the scanner stands: the command it has issued and whose
/// answer it awaits.
#[derive(Debug, Copy, Clone, PartialEq, Eq, Structural)]
pub enum ScanPhase {
    /// Between passes, awaiting the clock.
    Sampling,
    /// Awaiting the row to be driven.
    Raising { row: usize },
    /// The row is driven; awaiting the level of the column.
    Probing { row: usize, col: usize },
    /// Awaiting the row to be released; `hit` is the press found under it.
    Lowering { row: usize, hit: Option<u32> },
    /// Awaiting the channel to take the message.
    Sending { msg: u32 },
    /// A bounded scan that has ended.
    Stopped,
}

/// A bound on how long a scan may go on: it began at `started` and gives up
/// once `timeout_ms` have passed.
#[derive(Debug, Copy, Clone, PartialEq, Eq, Structural)]
pub struct ScanLimit {
    pub started: u64,
    pub timeout_ms: u64,
}

/// The scanner as a value: the stamps of the cells, the clock sample of the
/// pass under way, the phase, and the limit of a bounded scan.
pub struct ScanState {
    pub stamps: Seq<u64>,
    pub now: u64,
    pub phase: ScanPhase,
    pub limit: Option<ScanLimit>,
}

/// The command that a phase has issued.
pub open spec fn command_of(phase: ScanPhase) -> ScanCommand {
    match phase {
        ScanPhase::Sampling => ScanCommand::ReadClock,
        ScanPhase::Raising { row } => ScanCommand::RaiseRow(row),
        ScanPhase::Probing { row, col } => ScanCommand::ReadColumn(col),
        ScanPhase::Lowering { row, hit } => ScanCommand::LowerRow(row),
        ScanPhase::Sending { msg } => ScanCommand::Send(msg),
        ScanPhase::Stopped => ScanCommand::Stop,
    }
}

/// Whether an event answers the command of a phase.
pub open spec fn answers(phase: ScanPhase, event: ScanEvent) -> bool {
    match phase {
        ScanPhase::Sampling => event is Clock,
        ScanPhase::Raising { .. } => event is Done,
        ScanPhase::Probing { .. } => event is Level,
        ScanPhase::Lowering { .. } => event is Done,
        ScanPhase::Sending { .. } => event is Done,
        ScanPhase::Stopped => false,
    }
}

/// Whether a bounded scan is out of time at `now`.
pub open spec fn out_of_time(limit: Option<ScanLimit>, now: u64) -> bool {
    match limit {
        Some(l) => now - l.started >= l.timeout_ms,
        None => false,
    }
}

/// The phase after the column `col` of the driven row has been dealt with:
/// the next column, or the release of the row after its last column.
pub open spec fn after_column(row: usize, col: usize) -> ScanPhase {
    if col + 1 < COLS {
        ScanPhase::Probing { row, col: (col + 1) as usize }
    } else {
        ScanPhase::Lowering { row, hit: None }
    }
}

/// The phase after a row has been released with no press under it: the next
/// row, or a new pass after the last row.
pub open spec fn after_row(row: usize) -> ScanPhase {
    if row + 1 < ROWS {
        ScanPhase::Raising { row: (row + 1) as usize }
    } else {
        ScanPhase::Sampling
    }
}

/// One transition of the scanner. An event that does not answer the pending
/// command changes nothing.
pub open spec fn step(s: ScanState, event: ScanEvent) -> ScanState {
    match (s.phase, event) {
        (ScanPhase::Sampling, ScanEvent::Clock(t)) => ScanState {
            now: t,
            phase: if out_of_time(s.limit, t) {
                ScanPhase::Stopped
            } else {
                ScanPhase::Raising { row: 0 }
            },
            ..s
        },
        (ScanPhase::Raising { row }, ScanEvent::Done) => ScanState {
            phase: ScanPhase::Probing { row, col: 0 },
            ..s
        },
        (ScanPhase::Probing { row, col }, ScanEvent::Level(active)) => if active {
            let (stamps, hit) = observed(s.stamps, row as int, col as int, s.now);
            ScanState {
                stamps,
                phase: if hit is Some {
                    ScanPhase::Lowering { row, hit }
                } else {
                    after_column(row, col)
                },
                ..s
            }
        } else {
            ScanState { phase: after_column(row, col), ..s }
        },
        (ScanPhase::Lowering { row, hit }, ScanEvent::Done) => ScanState {
            phase: match hit {
                Some(msg) => ScanPhase::Sending { msg },
                None => after_row(row),
            },
            ..s
        },
        (ScanPhase::Sending { msg }, ScanEvent::Done) => ScanState {
            phase: if s.limit is Some {
                ScanPhase::Stopped
            } else {
                ScanPhase::Sampling
            },
            ..s
        },
        _ => s,
    }
}

/// Whether a phase names lines of the grid and carries a legal message.
pub open spec fn phase_in_grid(phase: ScanPhase) -> bool {
    match phase {
        ScanPhase::Sampling => true,
        ScanPhase::Raising { row } => row < ROWS,
        ScanPhase::Probing { row, col } => in_grid(row as int, col as int),
        ScanPhase::Lowering { row, hit } => row < ROWS && (hit matches Some(msg) ==> legal_message(
            msg as int,
        )),
        ScanPhase::Sending { msg } => legal_message(msg as int),
        ScanPhase::Stopped => true,
    }
}

/// The invariant of the scanner: one stamp for each cell, none of them later
/// than the clock sample of the pass, and a phase within the grid.
pub open spec fn state_wf(s: ScanState) -> bool {
    &&& s.stamps.len() == CELLS
    &&& forall|i: int| 0 <= i < CELLS ==> #[trigger] s.stamps[i] <= s.now
    &&& phase_in_grid(s.phase)
    &&& s.limit matches Some(l) ==> l.started <= s.now
}

/// Whether an event may be handed to a scanner in state `s`: clock samples
/// never go back.
pub open spec fn admissible(s: ScanState, event: ScanEvent) -> bool {
    event matches ScanEvent::Clock(t) ==> s.now <= t
}

/// The row that is driven active while the scanner is in a phase, if any.
pub open spec fn driven_row(phase: ScanPhase) -> Option<usize> {
    match phase {
        ScanPhase::Probing { row, col } => Some(row),
        ScanPhase::Lowering { row, hit } => Some(row),
        _ => None,
    }
}

/// The matrix scanner: the debounce table, the clock sample of the pass under
/// way, and the phase.
pub struct Scanner {
    table: DebounceTable,
    now: u64,
    phase: ScanPhase,
    limit: Option<ScanLimit>,
}

impl View for Scanner {
    type V = ScanState;

    closed spec fn view(&self) -> ScanState {
        ScanState { stamps: self.table@, now: self.now, phase: self.phase, limit: self.limit }
    }
}

impl Scanner {
    /// The invariant of the scanner.
    pub open spec fn wf(&self) -> bool {
        state_wf(self@)
    }

    /// A scanner that scans without end. Every cell counts as last seen at
    /// `start`, the time at which the scanner is made.
    pub fn new(start: u64) -> (scanner: Scanner)
        ensures
            scanner.wf(),
            scanner@ == (ScanState {
                stamps: Seq::new(CELLS as nat, |i: int| start),
                now: start,
                phase: ScanPhase::Sampling,
                limit: None,
            }),
    {
        Scanner { table: DebounceTable::new(start), now: start, phase: ScanPhase::Sampling, limit: None }
    }

    /// A scanner that stops at the first press, or once `timeout_ms` have
    /// passed since `start` with no press.
    pub fn with_timeout(start: u64, timeout_ms: u64) -> (scanner: Scanner)
        ensures
            scanner.wf(),
            scanner@ == (ScanState {
                stamps: Seq::new(CELLS as nat, |i: int| start),
                now: start,
                phase: ScanPhase::Sampling,
                limit: Some(ScanLimit { started: start, timeout_ms }),
            }),
    {
        Scanner {
            table: DebounceTable::new(start),
            now: start,
            phase: ScanPhase::Sampling,
            limit: Some(ScanLimit { started: start, timeout_ms }),
        }
    }

    /// The phase the scanner is in.
    pub fn phase(&self) -> (phase: ScanPhase)
        ensures
            phase == self@.phase,
    {
        self.phase
    }

    /// The clock sample of the pass under way.
    pub fn clock(&self) -> (now: u64)
        ensures
            now == self@.now,
    {
        self.now
    }

    /// The time at which `(row, col)` was last seen active.
    pub fn last_seen(&self, row: usize, col: usize) -> (t: u64)
        requires
            self.wf(),
            in_grid(row as int, col as int),
        ensures
            t == self@.stamps[cell_index(row as int, col as int)],
    {
        self.table.last_seen(row, col)
    }

    /// The command that the scanner has issued and whose answer it awaits.
    pub fn command(&self) -> (command: ScanCommand)
        ensures
            command == command_of(self@.phase),
    {
        match self.phase {
            ScanPhase::Sampling => ScanCommand::ReadClock,
            ScanPhase::Raising { row } => ScanCommand::RaiseRow(row),
            ScanPhase::Probing { row: _, col } => ScanCommand::ReadColumn(col),
            ScanPhase::Lowering { row, hit: _ } => ScanCommand::LowerRow(row),
            ScanPhase::Sending { msg } => ScanCommand::Send(msg),
            ScanPhase::Stopped => ScanCommand::Stop,
        }
    }

    /// Takes the answer to the pending command and returns the next command.
    pub fn advance(&mut self, event: ScanEvent) -> (command: ScanCommand)
        requires
            old(self).wf(),
            admissible(old(self)@, event),
        ensures
            final(self).wf(),
            final(self)@ == step(old(self)@, event),
            command == command_of(final(self)@.phase),
    {
        match (self.phase, event) {
            (ScanPhase::Sampling, ScanEvent::Clock(t)) => {
                self.now = t;
                let stop = match self.limit {
                    Some(l) => t - l.started >= l.timeout_ms,
                    None => false,
                };
                self.phase = if stop {
                    ScanPhase::Stopped
                } else {
                    ScanPhase::Raising { row: 0 }
                };
            },
            (ScanPhase::Raising { row }, ScanEvent::Done) => {
                self.phase = ScanPhase::Probing { row, col: 0 };
            },
            (ScanPhase::Probing { row, col }, ScanEvent::Level(active)) => {
                let hit = if active {
                    self.table.observe(row, col, self.now)
                } else {
                    None
                };
                self.phase = if hit.is_some() {
                    ScanPhase::Lowering { row, hit }
                } else if col + 1 < COLS {
                    ScanPhase::Probing { row, col: col + 1 }
                } else {
                    ScanPhase::Lowering { row, hit: None }
                };
            },
            (ScanPhase::Lowering { row, hit }, ScanEvent::Done) => {
                self.phase = match hit {
                    Some(msg) => ScanPhase::Sending { msg },
                    None => if row + 1 < ROWS {
                        ScanPhase::Raising { row: row + 1 }
                    } else {
                        ScanPhase::Sampling
                    },
                };
            },
            (ScanPhase::Sending { msg: _ }, ScanEvent::Done) => {
                self.phase = if self.limit.is_some() {
                    ScanPhase::Stopped
                } else {
                    ScanPhase::Sampling
                };
            },
            _ => {},
        }
        self.command()
    }
}

/// A step keeps the invariant, and time does not go back: neither the clock
/// of the pass nor the stamp of any cell ever decreases.
pub proof fn lemma_step_keeps_invariant(s: ScanState, event: ScanEvent)
    requires
        state_wf(s),
        admissible(s, event),
    ensures
        state_wf(step(s, event)),
        step(s, event).limit == s.limit,
        s.now <= step(s, event).now,
        forall|i: int| 0 <= i < CELLS ==> s.stamps[i] <= #[trigger] step(s, event).stamps[i],
{
    let next = step(s, event);
    assert forall|i: int| 0 <= i < CELLS implies #[trigger] next.stamps[i] <= next.now by {
        assert(s.stamps[i] <= s.now);
    }
    if let (ScanPhase::Probing { row, col }, ScanEvent::Level(true)) = (s.phase, event) {
        crate::grid::lemma_round_trip(row as int, col as int);
    }
}

/// A message is sent only for a press: the scanner comes to hold a message
/// only when a column of the driven row reads active at least a window after
/// the cell was last seen, and the message is that of the cell.
pub proof fn lemma_send_follows_press(s: ScanState, event: ScanEvent)
    requires
        state_wf(s),
        admissible(s, event),
        !(s.phase matches ScanPhase::Lowering { row, hit } && hit is Some),
        step(s, event).phase matches ScanPhase::Lowering { row, hit } && hit is Some,
    ensures
        event == ScanEvent::Level(true),
        s.phase matches ScanPhase::Probing { row, col } && {
            &&& is_press(s.stamps[cell_index(row as int, col as int)] as int, s.now as int)
            &&& step(s, event).phase == (ScanPhase::Lowering {
                row,
                hit: Some(message_of(row as int, col as int) as u32),
            })
            &&& step(s, event).stamps[cell_index(row as int, col as int)] == s.now
        },
{
}

/// What is sent is what was found: the message that goes to the channel is
/// the one held while the row was released.
pub proof fn lemma_send_carries_hit(s: ScanState, event: ScanEvent)
    requires
        step(s, event).phase is Sending,
        !(s.phase is Sending),
    ensures
        event is Done,
        s.phase matches ScanPhase::Lowering { row, hit } && hit == Some(
            step(s, event).phase->Sending_msg,
        ),
{
}

/// A bounce changes the cell's stamp and nothing else: the scan goes on to
/// the next column as if the column had read idle.
pub proof fn lemma_bounce_moves_on(s: ScanState, row: usize, col: usize)
    requires
        state_wf(s),
        s.phase == (ScanPhase::Probing { row, col }),
        !is_press(s.stamps[cell_index(row as int, col as int)] as int, s.now as int),
    ensures
        step(s, ScanEvent::Level(true)).phase == step(s, ScanEvent::Level(false)).phase,
        step(s, ScanEvent::Level(true)).stamps == s.stamps.update(
            cell_index(row as int, col as int),
            s.now,
        ),
        step(s, ScanEvent::Level(false)).stamps == s.stamps,
{
}

/// At most one row is driven at a time: a row is raised only from a phase in
/// which none is driven, and the row that is raised is the one then probed.
pub proof fn lemma_one_row_at_a_time(s: ScanState, event: ScanEvent)
    requires
        state_wf(s),
    ensures
        command_of(s.phase) is RaiseRow ==> driven_row(s.phase) is None,
        driven_row(step(s, event).phase) matches Some(row) ==> {
            ||| driven_row(s.phase) == Some(row)
            ||| s.phase == (ScanPhase::Raising { row })
        },
{
}

/// A bounded scan stops at the first clock sample that is a full timeout
/// after its start, and an endless scan never stops.
pub proof fn lemma_stop(s: ScanState, event: ScanEvent)
    requires
        state_wf(s),
        !(s.phase is Stopped),
        step(s, event).phase is Stopped,
    ensures
        s.limit matches Some(l) && {
            ||| s.phase is Sending && event is Done
            ||| s.phase is Sampling && event is Clock && event->Clock_0 - l.started
                >= l.timeout_ms
        },
{
}

} // verus!
