//! The scan protocol as a mathematical state machine.
//!
//! [`ScanModel`] holds what the scanner knows; [`ScanModel::scan_step`] and
//! [`ScanModel::wait_step`] say, for every state, which action comes next
//! and which state follows. The executable scanner is specified against
//! these two functions.

use vstd::prelude::*;
use crate::key::{DebounceState, KeyEvent, KeyState};
use crate::pins::Line;

verus! {

/// Settle time, in nanoseconds, that follows each change of a clock or
/// reset line.
pub const PROPAGATION_DELAY: u64 = 50;

/// Pause, in nanoseconds, between two scan passes (100 microseconds).
pub const SCAN_INTERVAL: u64 = 100_000;

/// An edge wait is skipped while the last key activity is at most this many
/// microseconds old (1 millisecond).
pub const ACTIVITY_WINDOW: u64 = 1_000;

/// How the scanner learns that a key went down.
#[derive(Clone, Copy, Debug, PartialEq, Eq, Structural)]
pub enum InputMode {
    /// Scan pass after scan pass, with no pause but the scan interval.
    Polling,
    /// Sleep on the input line until any key is down, and stay awake while
    /// keys are active.
    EdgeWait,
}

/// What the caller has to do before the next step.
#[derive(Clone, Copy, Debug, PartialEq, Eq, Structural)]
pub enum Action {
    /// Drive `line` high or low.
    SetLine { line: Line, high: bool },
    /// Suspend for at least `nanos` nanoseconds.
    Delay { nanos: u64 },
    /// Read the input line and hand `(row, col, level, state)` to the
    /// debouncer; answer with [`ScanEvent::Sampled`].
    Sample { row: usize, col: usize, state: KeyState },
    /// Publish `event` to the event sink and suspend until it is accepted.
    Publish { event: KeyEvent },
    /// Suspend until the input line is high.
    WaitForHigh,
}

/// What the previous action produced.
#[derive(Clone, Copy, Debug, PartialEq, Eq, Structural)]
pub enum ScanEvent {
    /// The action is done and has nothing to report.
    Resumed,
    /// The debouncer's decision on the cell that was sampled.
    Sampled { decision: DebounceState },
}

/// Where an edge wait stands. Each phase but `Idle` and `Stamp` names the
/// action that comes next.
#[derive(Clone, Copy, Debug, PartialEq, Eq, Structural)]
pub enum WaitPhase {
    /// No wait is under way.
    Idle,
    /// Next: select every cell (`AnyNot` low).
    Arm,
    /// Next: let the selection settle.
    Settle,
    /// Next: sleep until the input line is high.
    Listen,
    /// Next: deselect (`AnyNot` high).
    Restore,
    /// Next: record the wake-up time, which ends the wait.
    Stamp,
}

/// Where a scan pass stands. Each phase names the action that comes next.
#[derive(Clone, Copy, Debug, PartialEq, Eq, Structural)]
pub enum ScanPhase {
    /// Start of a pass: wait for a key where that is configured, then drive
    /// `RowClock` low.
    Wake,
    /// `ColClock` low.
    ResetColClock,
    /// `AnyNot` high.
    Deselect,
    /// `ResetNot` low.
    ResetAssert,
    /// Settle.
    ResetHold,
    /// `ResetNot` high: the chain is at row 0, column 0.
    ResetRelease,
    /// Settle.
    ResetSettle,
    /// Sample the cell under the cursor.
    Sample,
    /// Apply the debouncer's decision on the cell under the cursor.
    Decide,
    /// `ColClock` high.
    ColumnRise,
    /// Settle.
    ColumnHold,
    /// `ColClock` low.
    ColumnFall,
    /// Settle, then go to the next column or to the end of the row.
    ColumnSettle,
    /// `RowClock` high.
    RowRise,
    /// Settle.
    RowHold,
    /// `RowClock` low.
    RowFall,
    /// Settle, then go to the next row or to the end of the pass.
    RowSettle,
    /// Pause for the scan interval.
    Rest,
}

impl ScanPhase {
    /// The phases in which the cursor names a cell.
    pub open spec fn in_cell(self) -> bool {
        self is Sample || self is Decide || self is ColumnRise || self is ColumnHold
            || self is ColumnFall || self is ColumnSettle
    }

    /// The phases in which the cursor names a row.
    pub open spec fn in_row(self) -> bool {
        self.in_cell() || self is RowRise || self is RowHold || self is RowFall
            || self is RowSettle
    }
}

/// Drive `line` high or low.
pub open spec fn set_line(line: Line, high: bool) -> Action {
    Action::SetLine { line, high }
}

/// The settle time after a line change.
pub open spec fn settle() -> Action {
    Action::Delay { nanos: PROPAGATION_DELAY }
}

/// The state of a scanner: its extents, its key states and its place in
/// the protocol.
pub struct ScanModel {
    pub rows: nat,
    pub cols: nat,
    pub mode: InputMode,
    /// `grid[row][col]` is the key state of the cell.
    pub grid: Seq<Seq<KeyState>>,
    /// When keys were last seen active, in microseconds since boot. Only
    /// used in edge-wait mode.
    pub scan_start: Option<u64>,
    pub wait: WaitPhase,
    pub phase: ScanPhase,
    /// The cursor: the cell, or the row, that the chain is positioned at.
    pub row: nat,
    pub col: nat,
}

impl ScanModel {
    /// A scanner before its first step: every key released, no activity
    /// recorded, at the start of a pass.
    pub open spec fn initial(rows: nat, cols: nat, mode: InputMode) -> ScanModel {
        ScanModel {
            rows,
            cols,
            mode,
            grid: Seq::new(rows, |r: int| Seq::new(cols, |c: int| KeyState { pressed: false })),
            scan_start: None,
            wait: WaitPhase::Idle,
            phase: ScanPhase::Wake,
            row: 0,
            col: 0,
        }
    }

    /// The grid has the model's extents.
    pub open spec fn grid_wf(self) -> bool {
        &&& self.grid.len() == self.rows
        &&& forall|r: int| 0 <= r < self.rows ==> (#[trigger] self.grid[r]).len() == self.cols
    }

    /// The grid has the model's extents and the cursor is inside it
    /// wherever the phase reads it.
    pub open spec fn wf(self) -> bool {
        &&& self.grid_wf()
        &&& self.rows <= usize::MAX
        &&& self.cols <= usize::MAX
        &&& self.rows == 0 || self.row < self.rows
        &&& self.cols == 0 || self.col < self.cols
        &&& self.phase.in_row() ==> self.rows > 0
        &&& self.phase.in_cell() ==> self.cols > 0
        &&& !self.phase.in_row() ==> self.row == 0 && self.col == 0
    }

    /// The key state of the cell under the cursor.
    pub open spec fn cell(self) -> KeyState {
        self.grid[self.row as int][self.col as int]
    }

    /// The model with the key state of `(row, col)` replaced.
    pub open spec fn with_key_state(self, row: int, col: int, state: KeyState) -> ScanModel {
        ScanModel { grid: self.grid.update(row, self.grid[row].update(col, state)), ..self }
    }

    /// True where key activity was recorded at most the activity window
    /// before `now`, both times in microseconds since boot. A record that
    /// lies ahead of `now` counts as recent.
    pub open spec fn recently_active(self, now: u64) -> bool {
        self.scan_start matches Some(start) && (now < start || now - start <= ACTIVITY_WINDOW)
    }

    /// One step of an edge wait at time `now`. `None` says that the wait is
    /// over (or that none is configured) and scanning may resume.
    pub open spec fn wait_step(self, now: u64) -> (ScanModel, Option<Action>) {
        if self.mode == InputMode::Polling {
            (self, None)
        } else {
            match self.wait {
                WaitPhase::Idle => if self.recently_active(now) {
                    (self, None)
                } else {
                    (
                        ScanModel { scan_start: None, wait: WaitPhase::Arm, ..self },
                        Some(set_line(Line::ResetNot, true)),
                    )
                },
                WaitPhase::Arm => (
                    ScanModel { wait: WaitPhase::Settle, ..self },
                    Some(set_line(Line::AnyNot, false)),
                ),
                WaitPhase::Settle => (ScanModel { wait: WaitPhase::Listen, ..self }, Some(settle())),
                WaitPhase::Listen => (
                    ScanModel { wait: WaitPhase::Restore, ..self },
                    Some(Action::WaitForHigh),
                ),
                WaitPhase::Restore => (
                    ScanModel { wait: WaitPhase::Stamp, ..self },
                    Some(set_line(Line::AnyNot, true)),
                ),
                WaitPhase::Stamp => (
                    ScanModel { scan_start: Some(now), wait: WaitPhase::Idle, ..self },
                    None,
                ),
            }
        }
    }

    /// The model in phase `phase`.
    pub open spec fn at(self, phase: ScanPhase) -> ScanModel {
        ScanModel { phase, ..self }
    }

    /// The model at the start of row `row`: at its first cell, at the end
    /// of the row where there are no columns, or at the end of the pass
    /// where there is no such row.
    pub open spec fn enter_row(self, row: nat) -> ScanModel {
        if row < self.rows {
            if self.cols > 0 {
                ScanModel { phase: ScanPhase::Sample, row, col: 0, ..self }
            } else {
                ScanModel { phase: ScanPhase::RowRise, row, col: 0, ..self }
            }
        } else {
            ScanModel { phase: ScanPhase::Rest, row: 0, col: 0, ..self }
        }
    }

    /// The model after the column pulse: at the next cell of the row, or
    /// at the end of the row.
    pub open spec fn next_column(self) -> ScanModel {
        if self.col + 1 < self.cols {
            ScanModel { phase: ScanPhase::Sample, col: self.col + 1, ..self }
        } else {
            ScanModel { phase: ScanPhase::RowRise, col: 0, ..self }
        }
    }

    /// The sample request for the cell under the cursor.
    pub open spec fn sample(self) -> Action {
        Action::Sample { row: self.row as usize, col: self.col as usize, state: self.cell() }
    }

    /// The event that reports a stable transition of the cell under the
    /// cursor.
    pub open spec fn transition(self) -> KeyEvent {
        KeyEvent { row: self.row as usize, col: self.col as usize, pressed: !self.cell().pressed }
    }

    /// The model after a stable transition of the cell under the cursor:
    /// the cell is flipped and its column pulse comes next.
    pub open spec fn toggled(self) -> ScanModel {
        ScanModel {
            phase: ScanPhase::ColumnRise,
            ..self.with_key_state(
                self.row as int,
                self.col as int,
                KeyState { pressed: !self.cell().pressed },
            )
        }
    }

    /// Start of the column pulse at time `now`. In edge-wait mode a pressed
    /// cell refreshes the activity record first, so that held keys keep the
    /// scanner awake.
    pub open spec fn column_rise(self, now: u64) -> (ScanModel, Action) {
        (
            ScanModel {
                scan_start: if self.mode == InputMode::EdgeWait && self.cell().pressed {
                    Some(now)
                } else {
                    self.scan_start
                },
                phase: ScanPhase::ColumnHold,
                ..self
            },
            set_line(Line::ColClock, true),
        )
    }

    /// One step of the scan at time `now`: the state that follows and the
    /// action to perform. `event` is what the previous action produced; it
    /// is read only where a decision of the debouncer is awaited.
    pub open spec fn scan_step(self, event: ScanEvent, now: u64) -> (ScanModel, Action) {
        match self.phase {
            ScanPhase::Wake => {
                let (waited, action) = self.wait_step(now);
                match action {
                    Some(action) => (waited, action),
                    None => (waited.at(ScanPhase::ResetColClock), set_line(Line::RowClock, false)),
                }
            },
            ScanPhase::ResetColClock => (
                self.at(ScanPhase::Deselect),
                set_line(Line::ColClock, false),
            ),
            ScanPhase::Deselect => (self.at(ScanPhase::ResetAssert), set_line(Line::AnyNot, true)),
            ScanPhase::ResetAssert => (
                self.at(ScanPhase::ResetHold),
                set_line(Line::ResetNot, false),
            ),
            ScanPhase::ResetHold => (self.at(ScanPhase::ResetRelease), settle()),
            ScanPhase::ResetRelease => (
                self.at(ScanPhase::ResetSettle),
                set_line(Line::ResetNot, true),
            ),
            ScanPhase::ResetSettle => (self.enter_row(0), settle()),
            ScanPhase::Sample => (self.at(ScanPhase::Decide), self.sample()),
            ScanPhase::Decide => match event {
                ScanEvent::Sampled { decision: DebounceState::Debounced } => (
                    self.toggled(),
                    Action::Publish { event: self.transition() },
                ),
                ScanEvent::Sampled { decision: DebounceState::NoChange } => self.column_rise(now),
                ScanEvent::Resumed => (self, self.sample()),
            },
            ScanPhase::ColumnRise => self.column_rise(now),
            ScanPhase::ColumnHold => (self.at(ScanPhase::ColumnFall), settle()),
            ScanPhase::ColumnFall => (
                self.at(ScanPhase::ColumnSettle),
                set_line(Line::ColClock, false),
            ),
            ScanPhase::ColumnSettle => (self.next_column(), settle()),
            ScanPhase::RowRise => (self.at(ScanPhase::RowHold), set_line(Line::RowClock, true)),
            ScanPhase::RowHold => (self.at(ScanPhase::RowFall), settle()),
            ScanPhase::RowFall => (self.at(ScanPhase::RowSettle), set_line(Line::RowClock, false)),
            ScanPhase::RowSettle => (self.enter_row(self.row + 1), settle()),
            ScanPhase::Rest => (self.at(ScanPhase::Wake), Action::Delay { nanos: SCAN_INTERVAL }),
        }
    }
}

} // verus!
