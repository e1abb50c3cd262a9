//! The sequential matrix scanner.

use vstd::prelude::*;
use crate::clock::uptime_micros;
use crate::key::{DebounceState, KeyEvent, KeyState};
use crate::pins::{Line, SequentialMatrixPins};
use crate::protocol::{
    Action, InputMode, ScanEvent, ScanModel, ScanPhase, WaitPhase, ACTIVITY_WINDOW,
    PROPAGATION_DELAY, SCAN_INTERVAL,
};

verus! {

/// Why a key state could not be read or changed.
#[derive(Clone, Copy, Debug, PartialEq, Eq, Structural)]
pub enum MatrixError {
    /// The coordinates name no cell of the matrix.
    OutOfRange,
}

/// True where `cell` names nothing, or a cell of a `rows` x `cols` grid.
pub open spec fn within(cell: Option<(int, int)>, rows: nat, cols: nat) -> bool {
    cell matches Some((r, c)) ==> 0 <= r < rows && 0 <= c < cols
}

/// A component that scans a key matrix and keeps the key states: the
/// scanner itself, or a wrapper that presents it under other coordinates.
pub trait MatrixTrait: Sized {
    /// The state of the scanner behind this component.
    spec fn model(&self) -> ScanModel;

    /// The row and column in `model().grid` that the caller's coordinates
    /// `(row, col)` stand for, or `None` where they name no cell.
    spec fn locate(row: int, col: int) -> Option<(int, int)>;

    /// The component is in a state that its operations can leave it in.
    /// Every operation keeps it so.
    spec fn valid(&self) -> bool;

    /// The model of a valid component is well-formed, and `locate` names
    /// cells of its grid only.
    proof fn lemma_valid(&self)
        requires
            self.valid(),
        ensures
            self.model().wf(),
            forall|row: int, col: int|
                within(#[trigger] Self::locate(row, col), self.model().rows, self.model().cols),
    ;

    /// One step of an edge wait at time `now`, given in microseconds since
    /// boot. Perform the action and call again; `None` says that scanning
    /// may resume.
    fn wait_for_key_at(&mut self, now: u64) -> (action: Option<Action>)
        ensures
            old(self).valid() ==> final(self).valid(),
            (final(self).model(), action) == old(self).model().wait_step(now),
    ;

    /// One step of the scan at time `now`, given in microseconds since
    /// boot. `event` is what the previous action produced. Perform the
    /// action that comes back and call again, forever.
    fn scan_at(&mut self, event: ScanEvent, now: u64) -> (action: Action)
        ensures
            old(self).valid() ==> final(self).valid(),
            (final(self).model(), action) == old(self).model().scan_step(event, now),
    ;

    /// One step of an edge wait at the time that the system clock shows.
    fn wait_for_key(&mut self) -> (action: Option<Action>)
        ensures
            old(self).valid() ==> final(self).valid(),
            exists|now: u64|
                (final(self).model(), action) == #[trigger] old(self).model().wait_step(now),
    ;

    /// One step of the scan at the time that the system clock shows.
    fn scan(&mut self, event: ScanEvent) -> (action: Action)
        ensures
            old(self).valid() ==> final(self).valid(),
            exists|now: u64|
                (final(self).model(), action) == #[trigger] old(self).model().scan_step(
                    event,
                    now,
                ),
    ;

    /// A copy of the key state at `(row, col)`. Nothing changes.
    fn get_key_state(&mut self, row: usize, col: usize) -> (state: Result<KeyState, MatrixError>)
        ensures
            old(self).valid() ==> final(self).valid(),
            *final(self) == *old(self),
            state == match Self::locate(row as int, col as int) {
                Some((r, c)) => Ok::<KeyState, MatrixError>(old(self).model().grid[r][c]),
                None => Err(MatrixError::OutOfRange),
            },
    ;

    /// Applies `f` to the key state at `(row, col)` in place. No other cell
    /// changes, nor does the scan's progress. Coordinates that name no cell
    /// are an error, and `f` is not called.
    fn update_key_state<F: FnOnce(&mut KeyState)>(&mut self, row: usize, col: usize, f: F) -> (done:
        Result<(), MatrixError>)
        requires
            forall|state: &mut KeyState|
                Self::locate(row as int, col as int) matches Some((r, c)) && *state == old(
                    self,
                ).model().grid[r][c] ==> call_requires(f, (state,)),
        ensures
            old(self).valid() ==> final(self).valid(),
            match Self::locate(row as int, col as int) {
                Some((r, c)) => {
                    &&& done is Ok
                    &&& exists|state: &mut KeyState|
                        {
                            &&& *state == old(self).model().grid[r][c]
                            &&& #[trigger] call_ensures(f, (state,), ())
                            &&& final(self).model() == old(self).model().with_key_state(
                                r,
                                c,
                                *final(state),
                            )
                        }
                },
                None => done == Err::<(), MatrixError>(MatrixError::OutOfRange) && final(self).model()
                    == old(self).model(),
            },
    ;
}

/// The cell of a `rows` x `cols` grid that `(row, col)` names, if any.
pub open spec fn locate_cell(rows: usize, cols: usize, row: int, col: int) -> Option<(int, int)> {
    if 0 <= row < rows && 0 <= col < cols {
        Some((row, col))
    } else {
        None
    }
}

/// The scanner's place in a pass.
struct Cursor<const ROW: usize, const COL: usize> {
    phase: ScanPhase,
    row: usize,
    col: usize,
}

impl<const ROW: usize, const COL: usize> Cursor<ROW, COL> {
    /// The cursor stays inside the grid, and rests at the origin outside
    /// the rows.
    #[verifier::type_invariant]
    closed spec fn inv(&self) -> bool {
        &&& ROW == 0 || self.row < ROW
        &&& COL == 0 || self.col < COL
        &&& self.phase.in_row() ==> ROW > 0
        &&& self.phase.in_cell() ==> COL > 0
        &&& !self.phase.in_row() ==> self.row == 0 && self.col == 0
    }
}

/// Scanner for a `ROW` x `COL` key matrix behind a shift-register chain.
///
/// It owns the pins and the debouncer, keeps one key state per cell and
/// knows where in the scan protocol it stands.
pub struct SequentialMatrix<In, Out, D, const ROW: usize, const COL: usize> {
    pins: SequentialMatrixPins<In, Out>,
    debouncer: D,
    /// `key_states[row][col]`, `ROW` rows of `COL` cells.
    key_states: [[KeyState; COL]; ROW],
    /// When keys were last seen active, in microseconds since boot.
    scan_start: Option<u64>,
    mode: InputMode,
    wait: WaitPhase,
    cursor: Cursor<ROW, COL>,
}

impl<In, Out, D, const ROW: usize, const COL: usize> SequentialMatrix<In, Out, D, ROW, COL> {
    /// The pins that the scanner owns.
    pub closed spec fn pins(&self) -> SequentialMatrixPins<In, Out> {
        self.pins
    }

    /// The debouncer that the scanner owns.
    pub closed spec fn debouncer(&self) -> D {
        self.debouncer
    }

    closed spec fn grid(&self) -> Seq<Seq<KeyState>> {
        self.key_states@.map_values(|cells: [KeyState; COL]| cells@)
    }

    proof fn lemma_grid_wf(&self)
        ensures
            self.model().grid_wf(),
    {
        assert forall|r: int| 0 <= r < ROW implies (#[trigger] self.grid()[r]).len() == COL by {
            assert(self.grid()[r] == self.key_states@[r]@);
        }
    }

    /// A scanner at the start of its first pass, with every key released
    /// and no activity recorded.
    pub fn new(pins: SequentialMatrixPins<In, Out>, debouncer: D, mode: InputMode) -> (matrix: Self)
        ensures
            matrix.valid(),
            matrix.model() == ScanModel::initial(ROW as nat, COL as nat, mode),
            matrix.pins() == pins,
            matrix.debouncer() == debouncer,
    {
        let matrix = Self {
            pins,
            debouncer,
            key_states: [[KeyState::new(); COL]; ROW],
            scan_start: None,
            mode,
            wait: WaitPhase::Idle,
            cursor: Cursor { phase: ScanPhase::Wake, row: 0, col: 0 },
        };
        assert(matrix.grid() =~~= ScanModel::initial(ROW as nat, COL as nat, mode).grid);
        matrix
    }

    /// Lends out the pins, for driving and reading the lines. The scan's
    /// state stays as it is.
    pub fn pins_mut(&mut self) -> (pins: &mut SequentialMatrixPins<In, Out>)
        ensures
            *pins == old(self).pins(),
            final(self).pins() == *final(pins),
            final(self).debouncer() == old(self).debouncer(),
            final(self).model() == old(self).model(),
    {
        &mut self.pins
    }

    /// Lends out the input pin and the debouncer together, as sampling a
    /// cell needs both. The scan's state stays as it is.
    pub fn sampler_mut(&mut self) -> (parts: (&mut In, &mut D))
        ensures
            *parts.0 == old(self).pins().input(),
            *parts.1 == old(self).debouncer(),
            final(self).pins().input() == *final(parts.0),
            forall|line: Line| final(self).pins().output(line) == old(self).pins().output(line),
            final(self).debouncer() == *final(parts.1),
            final(self).model() == old(self).model(),
    {
        (self.pins.input_mut(), &mut self.debouncer)
    }

    fn recently_active(&self, now: u64) -> (recent: bool)
        ensures
            recent == self.model().recently_active(now),
    {
        match self.scan_start {
            Some(start) => now < start || now - start <= ACTIVITY_WINDOW,
            None => false,
        }
    }

    fn enter_row(&mut self, row: usize)
        requires
            row <= ROW,
            !old(self).model().phase.in_row() ==> row == 0,
        ensures
            final(self).pins() == old(self).pins(),
            final(self).debouncer() == old(self).debouncer(),
            final(self).model().wf(),
            final(self).model() == old(self).model().enter_row(row as nat),
    {
        proof {
            use_type_invariant(&self.cursor);
            self.lemma_grid_wf();
        }
        if row < ROW {
            if COL > 0 {
                self.cursor.col = 0;
                self.cursor.row = row;
                self.cursor.phase = ScanPhase::Sample;
            } else {
                self.cursor.col = 0;
                self.cursor.row = row;
                self.cursor.phase = ScanPhase::RowRise;
            }
        } else {
            self.cursor.col = 0;
            self.cursor.row = 0;
            self.cursor.phase = ScanPhase::Rest;
        }
    }

    fn column_rise(&mut self, now: u64) -> (action: Action)
        requires
            old(self).model().phase.in_cell(),
        ensures
            final(self).pins() == old(self).pins(),
            final(self).debouncer() == old(self).debouncer(),
            final(self).model().wf(),
            (final(self).model(), action) == old(self).model().column_rise(now),
    {
        proof {
            use_type_invariant(&self.cursor);
            self.lemma_grid_wf();
        }
        let edge_wait = match self.mode {
            InputMode::EdgeWait => true,
            InputMode::Polling => false,
        };
        if edge_wait && self.key_states[self.cursor.row][self.cursor.col].pressed {
            self.scan_start = Some(now);
        }
        self.cursor.phase = ScanPhase::ColumnHold;
        Action::SetLine { line: Line::ColClock, high: true }
    }
}

impl<In, Out, D, const ROW: usize, const COL: usize> MatrixTrait for SequentialMatrix<
    In,
    Out,
    D,
    ROW,
    COL,
> {
    closed spec fn model(&self) -> ScanModel {
        ScanModel {
            rows: ROW as nat,
            cols: COL as nat,
            mode: self.mode,
            grid: self.grid(),
            scan_start: self.scan_start,
            wait: self.wait,
            phase: self.cursor.phase,
            row: self.cursor.row as nat,
            col: self.cursor.col as nat,
        }
    }

    open spec fn locate(row: int, col: int) -> Option<(int, int)> {
        locate_cell(ROW, COL, row, col)
    }

    open spec fn valid(&self) -> bool {
        &&& self.model().wf()
        &&& self.model().rows == ROW
        &&& self.model().cols == COL
    }

    proof fn lemma_valid(&self) {
    }

    fn wait_for_key_at(&mut self, now: u64) -> (action: Option<Action>)
        ensures
            old(self).valid(),
            final(self).valid(),
            final(self).pins() == old(self).pins(),
            final(self).debouncer() == old(self).debouncer(),
    {
        proof {
            use_type_invariant(&self.cursor);
            self.lemma_grid_wf();
        }
        match self.mode {
            InputMode::Polling => None,
            InputMode::EdgeWait => match self.wait {
                WaitPhase::Idle => {
                    if self.recently_active(now) {
                        None
                    } else {
                        self.scan_start = None;
                        self.wait = WaitPhase::Arm;
                        Some(Action::SetLine { line: Line::ResetNot, high: true })
                    }
                },
                WaitPhase::Arm => {
                    self.wait = WaitPhase::Settle;
                    Some(Action::SetLine { line: Line::AnyNot, high: false })
                },
                WaitPhase::Settle => {
                    self.wait = WaitPhase::Listen;
                    Some(Action::Delay { nanos: PROPAGATION_DELAY })
                },
                WaitPhase::Listen => {
                    self.wait = WaitPhase::Restore;
                    Some(Action::WaitForHigh)
                },
                WaitPhase::Restore => {
                    self.wait = WaitPhase::Stamp;
                    Some(Action::SetLine { line: Line::AnyNot, high: true })
                },
                WaitPhase::Stamp => {
                    self.scan_start = Some(now);
                    self.wait = WaitPhase::Idle;
                    None
                },
            },
        }
    }

    fn scan_at(&mut self, event: ScanEvent, now: u64) -> (action: Action)
        ensures
            old(self).valid(),
            final(self).valid(),
            final(self).pins() == old(self).pins(),
            final(self).debouncer() == old(self).debouncer(),
    {
        proof {
            use_type_invariant(&self.cursor);
            self.lemma_grid_wf();
        }
        match self.cursor.phase {
            ScanPhase::Wake => {
                match self.wait_for_key_at(now) {
                    Some(action) => action,
                    None => {
                        self.cursor.phase = ScanPhase::ResetColClock;
                        Action::SetLine { line: Line::RowClock, high: false }
                    },
                }
            },
            ScanPhase::ResetColClock => {
                self.cursor.phase = ScanPhase::Deselect;
                Action::SetLine { line: Line::ColClock, high: false }
            },
            ScanPhase::Deselect => {
                self.cursor.phase = ScanPhase::ResetAssert;
                Action::SetLine { line: Line::AnyNot, high: true }
            },
            ScanPhase::ResetAssert => {
                self.cursor.phase = ScanPhase::ResetHold;
                Action::SetLine { line: Line::ResetNot, high: false }
            },
            ScanPhase::ResetHold => {
                self.cursor.phase = ScanPhase::ResetRelease;
                Action::Delay { nanos: PROPAGATION_DELAY }
            },
            ScanPhase::ResetRelease => {
                self.cursor.phase = ScanPhase::ResetSettle;
                Action::SetLine { line: Line::ResetNot, high: true }
            },
            ScanPhase::ResetSettle => {
                self.enter_row(0);
                Action::Delay { nanos: PROPAGATION_DELAY }
            },
            ScanPhase::Sample => {
                let state = self.key_states[self.cursor.row][self.cursor.col];
                self.cursor.phase = ScanPhase::Decide;
                Action::Sample { row: self.cursor.row, col: self.cursor.col, state }
            },
            ScanPhase::Decide => match event {
                ScanEvent::Sampled { decision: DebounceState::Debounced } => {
                    self.key_states[self.cursor.row][self.cursor.col].toggle_pressed();
                    let state = self.key_states[self.cursor.row][self.cursor.col];
                    self.cursor.phase = ScanPhase::ColumnRise;
                    assert(self.grid() =~= old(self).model().toggled().grid);
                    Action::Publish {
                        event: KeyEvent { row: self.cursor.row, col: self.cursor.col, pressed: state.pressed },
                    }
                },
                ScanEvent::Sampled { decision: DebounceState::NoChange } => self.column_rise(now),
                ScanEvent::Resumed => {
                    let state = self.key_states[self.cursor.row][self.cursor.col];
                    Action::Sample { row: self.cursor.row, col: self.cursor.col, state }
                },
            },
            ScanPhase::ColumnRise => self.column_rise(now),
            ScanPhase::ColumnHold => {
                self.cursor.phase = ScanPhase::ColumnFall;
                Action::Delay { nanos: PROPAGATION_DELAY }
            },
            ScanPhase::ColumnFall => {
                self.cursor.phase = ScanPhase::ColumnSettle;
                Action::SetLine { line: Line::ColClock, high: false }
            },
            ScanPhase::ColumnSettle => {
                if self.cursor.col + 1 < COL {
                    self.cursor.col = self.cursor.col + 1;
                    self.cursor.phase = ScanPhase::Sample;
                } else {
                    self.cursor.col = 0;
                    self.cursor.phase = ScanPhase::RowRise;
                }
                Action::Delay { nanos: PROPAGATION_DELAY }
            },
            ScanPhase::RowRise => {
                self.cursor.phase = ScanPhase::RowHold;
                Action::SetLine { line: Line::RowClock, high: true }
            },
            ScanPhase::RowHold => {
                self.cursor.phase = ScanPhase::RowFall;
                Action::Delay { nanos: PROPAGATION_DELAY }
            },
            ScanPhase::RowFall => {
                self.cursor.phase = ScanPhase::RowSettle;
                Action::SetLine { line: Line::RowClock, high: false }
            },
            ScanPhase::RowSettle => {
                let next = self.cursor.row + 1;
                self.enter_row(next);
                Action::Delay { nanos: PROPAGATION_DELAY }
            },
            ScanPhase::Rest => {
                self.cursor.phase = ScanPhase::Wake;
                Action::Delay { nanos: SCAN_INTERVAL }
            },
        }
    }

    fn wait_for_key(&mut self) -> (action: Option<Action>)
        ensures
            old(self).valid(),
            final(self).valid(),
            final(self).pins() == old(self).pins(),
            final(self).debouncer() == old(self).debouncer(),
    {
        let now = uptime_micros();
        let action = self.wait_for_key_at(now);
        assert((self.model(), action) == old(self).model().wait_step(now));
        action
    }

    fn scan(&mut self, event: ScanEvent) -> (action: Action)
        ensures
            old(self).valid(),
            final(self).valid(),
            final(self).pins() == old(self).pins(),
            final(self).debouncer() == old(self).debouncer(),
    {
        let now = uptime_micros();
        let action = self.scan_at(event, now);
        assert((self.model(), action) == old(self).model().scan_step(event, now));
        action
    }

    fn get_key_state(&mut self, row: usize, col: usize) -> (state: Result<KeyState, MatrixError>)
        ensures
            old(self).valid(),
            final(self).valid(),
    {
        proof {
            use_type_invariant(&self.cursor);
            self.lemma_grid_wf();
        }
        if row < ROW && col < COL {
            Ok(self.key_states[row][col])
        } else {
            Err(MatrixError::OutOfRange)
        }
    }

    fn update_key_state<F: FnOnce(&mut KeyState)>(&mut self, row: usize, col: usize, f: F) -> (done:
        Result<(), MatrixError>)
        ensures
            old(self).valid(),
            final(self).valid(),
            final(self).pins() == old(self).pins(),
            final(self).debouncer() == old(self).debouncer(),
    {
        proof {
            use_type_invariant(&self.cursor);
            self.lemma_grid_wf();
        }
        if row < ROW && col < COL {
            f(&mut self.key_states[row][col]);
            assert(self.grid() =~= old(self).model().with_key_state(
                row as int,
                col as int,
                self.key_states@[row as int]@[col as int],
            ).grid);
            Ok(())
        } else {
            Err(MatrixError::OutOfRange)
        }
    }
}

} // verus!
