use sequential_matrix::protocol::{PROPAGATION_DELAY, SCAN_INTERVAL};
use sequential_matrix::{
    Action, DebounceState, InputMode, KeyEvent, KeyState, Line, MatrixError, MatrixTrait,
    OffsettedMatrix, ScanEvent, SequentialMatrix, SequentialMatrixPins,
};

/// A pin that only has a name.
#[derive(Debug, PartialEq)]
struct Pin(&'static str);

type Matrix<const ROW: usize, const COL: usize> = SequentialMatrix<Pin, Pin, u32, ROW, COL>;

fn pins() -> SequentialMatrixPins<Pin, Pin> {
    SequentialMatrixPins::new(Pin("row"), Pin("col"), Pin("any"), Pin("reset"), Pin("in"))
}

fn matrix<const ROW: usize, const COL: usize>(mode: InputMode) -> Matrix<ROW, COL> {
    SequentialMatrix::new(pins(), 7, mode)
}

fn index(line: Line) -> usize {
    match line {
        Line::RowClock => 0,
        Line::ColClock => 1,
        Line::AnyNot => 2,
        Line::ResetNot => 3,
    }
}

/// The shift-register chain, the keys behind it, a clock and a debouncer
/// that follows a script or, without one, accepts the first differing
/// sample.
struct Bench {
    levels: [bool; 4],
    row: usize,
    col: usize,
    held: Vec<(usize, usize)>,
    script: Option<Vec<DebounceState>>,
    decisions: usize,
    debounced: usize,
    nanos: u64,
    actions: Vec<Action>,
    sampled: Vec<(usize, usize, bool)>,
    published: Vec<KeyEvent>,
    changes: Vec<(Line, u64)>,
}

impl Bench {
    fn new(held: &[(usize, usize)]) -> Self {
        Bench {
            levels: [false; 4],
            row: 0,
            col: 0,
            held: held.to_vec(),
            script: None,
            decisions: 0,
            debounced: 0,
            nanos: 0,
            actions: Vec::new(),
            sampled: Vec::new(),
            published: Vec::new(),
            changes: Vec::new(),
        }
    }

    fn input_high(&self) -> bool {
        if !self.levels[index(Line::AnyNot)] {
            !self.held.is_empty()
        } else {
            self.held.contains(&(self.row, self.col))
        }
    }

    fn perform(&mut self, action: Action) -> ScanEvent {
        self.actions.push(action);
        match action {
            Action::SetLine { line, high } => {
                let was = self.levels[index(line)];
                if was != high {
                    self.changes.push((line, self.nanos));
                    match (line, high) {
                        (Line::ResetNot, true) => {
                            self.row = 0;
                            self.col = 0;
                        }
                        (Line::ColClock, false) => self.col += 1,
                        (Line::RowClock, false) => {
                            self.row += 1;
                            self.col = 0;
                        }
                        _ => {}
                    }
                }
                self.levels[index(line)] = high;
                ScanEvent::Resumed
            }
            Action::Delay { nanos } => {
                self.nanos += nanos;
                ScanEvent::Resumed
            }
            Action::Sample { row, col, state } => {
                let level = self.input_high();
                self.sampled.push((row, col, level));
                assert_eq!((row, col), (self.row, self.col));
                let decision = match &self.script {
                    Some(script) => script[self.decisions],
                    None => {
                        if level != state.pressed {
                            DebounceState::Debounced
                        } else {
                            DebounceState::NoChange
                        }
                    }
                };
                self.decisions += 1;
                if decision == DebounceState::Debounced {
                    self.debounced += 1;
                }
                ScanEvent::Sampled { decision }
            }
            Action::Publish { event } => {
                self.published.push(event);
                ScanEvent::Resumed
            }
            Action::WaitForHigh => {
                assert!(self.input_high());
                ScanEvent::Resumed
            }
        }
    }

    /// Runs whole passes: up to and including the pause that ends the last.
    fn passes<M: MatrixTrait>(&mut self, matrix: &mut M, passes: usize) {
        let mut event = ScanEvent::Resumed;
        let mut done = 0;
        while done < passes {
            let action = matrix.scan_at(event, self.nanos / 1000);
            event = self.perform(action);
            if action == (Action::Delay { nanos: SCAN_INTERVAL }) {
                done += 1;
            }
        }
    }
}

fn set(line: Line, high: bool) -> Action {
    Action::SetLine { line, high }
}

fn settle() -> Action {
    Action::Delay { nanos: 50 }
}

fn state<M: MatrixTrait>(matrix: &mut M, row: usize, col: usize) -> bool {
    matrix.get_key_state(row, col).unwrap().pressed
}

#[test]
fn key_state_starts_released_and_toggles() {
    let mut key = KeyState::new();
    assert!(!key.pressed);
    key.toggle_pressed();
    assert!(key.pressed);
    key.toggle_pressed();
    assert_eq!(key, KeyState::default());
}

#[test]
fn constants_are_the_protocol_timings() {
    assert_eq!(PROPAGATION_DELAY, 50);
    assert_eq!(SCAN_INTERVAL, 100_000);
}

#[test]
fn pins_are_lent_by_line() {
    let mut pins = pins();
    assert_eq!(*pins.output_mut(Line::RowClock), Pin("row"));
    assert_eq!(*pins.output_mut(Line::ColClock), Pin("col"));
    assert_eq!(*pins.output_mut(Line::AnyNot), Pin("any"));
    assert_eq!(*pins.output_mut(Line::ResetNot), Pin("reset"));
    assert_eq!(*pins.input_mut(), Pin("in"));
    *pins.output_mut(Line::AnyNot) = Pin("other");
    assert_eq!(*pins.output_mut(Line::AnyNot), Pin("other"));
    assert_eq!(*pins.output_mut(Line::ResetNot), Pin("reset"));
}

#[test]
fn matrix_lends_pins_and_debouncer() {
    let mut m = matrix::<2, 2>(InputMode::Polling);
    assert_eq!(*m.pins_mut().input_mut(), Pin("in"));
    *m.pins_mut().output_mut(Line::ColClock) = Pin("other");
    *m.sampler_mut().1 = 9;
    let (input, debouncer) = m.sampler_mut();
    assert_eq!(*input, Pin("in"));
    assert_eq!(*debouncer, 9);
    assert_eq!(*m.pins_mut().output_mut(Line::ColClock), Pin("other"));
    assert_eq!(*m.pins_mut().output_mut(Line::RowClock), Pin("row"));
}

#[test]
fn new_matrix_has_every_key_released() {
    let mut m = matrix::<3, 4>(InputMode::Polling);
    for row in 0..3 {
        for col in 0..4 {
            assert_eq!(m.get_key_state(row, col), Ok(KeyState { pressed: false }));
        }
    }
}

#[test]
fn get_key_state_rejects_cells_outside_the_matrix() {
    let mut m = matrix::<3, 4>(InputMode::Polling);
    assert_eq!(m.get_key_state(3, 0), Err(MatrixError::OutOfRange));
    assert_eq!(m.get_key_state(0, 4), Err(MatrixError::OutOfRange));
    assert_eq!(m.get_key_state(usize::MAX, usize::MAX), Err(MatrixError::OutOfRange));
}

#[test]
fn update_key_state_changes_one_cell() {
    let mut m = matrix::<2, 3>(InputMode::Polling);
    assert_eq!(m.update_key_state(1, 2, |key| key.pressed = true), Ok(()));
    for row in 0..2 {
        for col in 0..3 {
            assert_eq!(state(&mut m, row, col), (row, col) == (1, 2));
        }
    }
    assert_eq!(m.update_key_state(1, 2, |key| key.toggle_pressed()), Ok(()));
    assert!(!state(&mut m, 1, 2));
}

#[test]
fn update_key_state_rejects_cells_outside_the_matrix() {
    let mut m = matrix::<2, 3>(InputMode::Polling);
    let mut called = false;
    assert_eq!(m.update_key_state(2, 0, |_| called = true), Err(MatrixError::OutOfRange));
    assert_eq!(m.update_key_state(0, 3, |_| called = true), Err(MatrixError::OutOfRange));
    assert!(!called);
}

#[test]
fn first_pass_of_a_one_by_one_matrix() {
    let mut m = matrix::<1, 1>(InputMode::Polling);
    let mut bench = Bench::new(&[]);
    bench.passes(&mut m, 1);
    assert_eq!(
        bench.actions,
        vec![
            set(Line::RowClock, false),
            set(Line::ColClock, false),
            set(Line::AnyNot, true),
            set(Line::ResetNot, false),
            settle(),
            set(Line::ResetNot, true),
            settle(),
            Action::Sample { row: 0, col: 0, state: KeyState { pressed: false } },
            set(Line::ColClock, true),
            settle(),
            set(Line::ColClock, false),
            settle(),
            set(Line::RowClock, true),
            settle(),
            set(Line::RowClock, false),
            settle(),
            Action::Delay { nanos: 100_000 },
        ]
    );
}

#[test]
fn a_debounced_cell_is_published_before_its_column_pulse() {
    let mut m = matrix::<1, 1>(InputMode::Polling);
    let mut bench = Bench::new(&[(0, 0)]);
    bench.passes(&mut m, 1);
    assert_eq!(
        bench.actions[7..10],
        [
            Action::Sample { row: 0, col: 0, state: KeyState { pressed: false } },
            Action::Publish { event: KeyEvent { row: 0, col: 0, pressed: true } },
            set(Line::ColClock, true),
        ]
    );
    assert_eq!(bench.actions.len(), 18);
    assert!(state(&mut m, 0, 0));
}

#[test]
fn an_unanswered_sample_is_asked_again() {
    let mut m = matrix::<1, 1>(InputMode::Polling);
    let mut action = m.scan_at(ScanEvent::Resumed, 0);
    while !matches!(action, Action::Sample { .. }) {
        action = m.scan_at(ScanEvent::Resumed, 0);
    }
    assert_eq!(m.scan_at(ScanEvent::Resumed, 0), action);
    assert_eq!(m.scan_at(ScanEvent::Resumed, 0), action);
    assert_eq!(
        m.scan_at(ScanEvent::Sampled { decision: DebounceState::NoChange }, 0),
        set(Line::ColClock, true)
    );
}

#[test]
fn a_decision_that_nobody_asked_for_is_ignored() {
    let mut m = matrix::<1, 1>(InputMode::Polling);
    let debounced = ScanEvent::Sampled { decision: DebounceState::Debounced };
    for _ in 0..7 {
        assert!(!matches!(m.scan_at(debounced, 0), Action::Publish { .. }));
    }
    assert!(matches!(m.scan_at(debounced, 0), Action::Sample { .. }));
    assert!(!state(&mut m, 0, 0));
}

#[test]
fn scan_visits_every_cell_once_in_row_major_order() {
    let mut m = matrix::<3, 4>(InputMode::Polling);
    let mut bench = Bench::new(&[]);
    bench.passes(&mut m, 1);
    let cells: Vec<(usize, usize)> = bench.sampled.iter().map(|s| (s.0, s.1)).collect();
    let mut expected = Vec::new();
    for row in 0..3 {
        for col in 0..4 {
            expected.push((row, col));
        }
    }
    assert_eq!(cells, expected);
    bench.passes(&mut m, 1);
    assert_eq!(bench.sampled.len(), 24);
    assert_eq!((bench.sampled[12].0, bench.sampled[12].1), (0, 0));
}

#[test]
fn published_events_are_the_debounced_decisions() {
    let (debounced, no_change) = (DebounceState::Debounced, DebounceState::NoChange);
    let mut m = matrix::<2, 3>(InputMode::Polling);
    let mut bench = Bench::new(&[]);
    bench.script = Some(vec![
        no_change, debounced, no_change, debounced, debounced, no_change,
        debounced, debounced, no_change, no_change, no_change, debounced,
    ]);
    bench.passes(&mut m, 2);
    assert_eq!(bench.decisions, 12);
    assert_eq!(bench.published.len(), bench.debounced);
    assert_eq!(
        bench.published,
        vec![
            KeyEvent { row: 0, col: 1, pressed: true },
            KeyEvent { row: 1, col: 0, pressed: true },
            KeyEvent { row: 1, col: 1, pressed: true },
            KeyEvent { row: 0, col: 0, pressed: true },
            KeyEvent { row: 0, col: 1, pressed: false },
            KeyEvent { row: 1, col: 2, pressed: true },
        ]
    );
    assert!(state(&mut m, 0, 0));
    assert!(!state(&mut m, 0, 1));
    assert!(state(&mut m, 1, 0));
    assert!(state(&mut m, 1, 1));
    assert!(state(&mut m, 1, 2));
    assert!(!state(&mut m, 0, 2));
}

#[test]
fn unchanged_input_publishes_nothing() {
    let mut m = matrix::<2, 2>(InputMode::Polling);
    let mut bench = Bench::new(&[(0, 1)]);
    bench.passes(&mut m, 1);
    assert_eq!(bench.published, vec![KeyEvent { row: 0, col: 1, pressed: true }]);
    bench.passes(&mut m, 5);
    assert_eq!(bench.published.len(), 1);
    assert!(!state(&mut m, 0, 0));
    assert!(state(&mut m, 0, 1));
    assert!(!state(&mut m, 1, 0));
    assert!(!state(&mut m, 1, 1));
}

#[test]
fn end_to_end_two_by_two() {
    let mut m = matrix::<2, 2>(InputMode::Polling);
    let mut bench = Bench::new(&[(1, 1)]);
    bench.passes(&mut m, 1);
    assert_eq!(
        bench.sampled,
        vec![(0, 0, false), (0, 1, false), (1, 0, false), (1, 1, true)]
    );
    assert_eq!(bench.published, vec![KeyEvent { row: 1, col: 1, pressed: true }]);
    assert!(!state(&mut m, 0, 0));
    assert!(!state(&mut m, 0, 1));
    assert!(!state(&mut m, 1, 0));
    assert!(state(&mut m, 1, 1));
}

#[test]
fn release_is_published_too() {
    let mut m = matrix::<2, 2>(InputMode::Polling);
    let mut bench = Bench::new(&[(1, 0)]);
    bench.passes(&mut m, 1);
    bench.held.clear();
    bench.passes(&mut m, 1);
    assert_eq!(
        bench.published,
        vec![
            KeyEvent { row: 1, col: 0, pressed: true },
            KeyEvent { row: 1, col: 0, pressed: false },
        ]
    );
    assert!(!state(&mut m, 1, 0));
}

#[test]
fn a_matrix_without_rows_only_resets_and_rests() {
    let mut m = matrix::<0, 3>(InputMode::Polling);
    let mut bench = Bench::new(&[]);
    bench.passes(&mut m, 2);
    assert_eq!(bench.actions.len(), 16);
    assert_eq!(bench.actions[7], Action::Delay { nanos: 100_000 });
    assert_eq!(bench.actions[8], set(Line::RowClock, false));
    assert!(bench.sampled.is_empty());
    assert_eq!(m.get_key_state(0, 0), Err(MatrixError::OutOfRange));
}

#[test]
fn a_matrix_without_columns_only_pulses_the_row_clock() {
    let mut m = matrix::<2, 0>(InputMode::Polling);
    let mut bench = Bench::new(&[]);
    bench.passes(&mut m, 1);
    assert_eq!(bench.actions.len(), 7 + 2 * 4 + 1);
    assert_eq!(
        bench.actions[7..11],
        [set(Line::RowClock, true), settle(), set(Line::RowClock, false), settle()]
    );
    assert!(bench.sampled.is_empty());
    assert_eq!(m.get_key_state(0, 0), Err(MatrixError::OutOfRange));
}

#[test]
fn line_changes_are_a_propagation_delay_apart() {
    for mode in [InputMode::Polling, InputMode::EdgeWait] {
        let mut m = matrix::<2, 3>(mode);
        let mut bench = Bench::new(&[(1, 2)]);
        bench.passes(&mut m, 4);
        for line in [Line::RowClock, Line::ColClock, Line::AnyNot, Line::ResetNot] {
            let times: Vec<u64> =
                bench.changes.iter().filter(|c| c.0 == line).map(|c| c.1).collect();
            assert!(!times.is_empty());
            for pair in times.windows(2) {
                assert!(pair[1] - pair[0] >= PROPAGATION_DELAY);
            }
        }
    }
}

#[test]
fn polling_never_waits_for_a_key() {
    let mut m = matrix::<1, 1>(InputMode::Polling);
    assert_eq!(m.wait_for_key_at(0), None);
    assert_eq!(m.wait_for_key_at(1_000_000), None);
    assert_eq!(m.scan_at(ScanEvent::Resumed, 0), set(Line::RowClock, false));
}

#[test]
fn edge_wait_arms_listens_and_restores() {
    let mut m = matrix::<1, 1>(InputMode::EdgeWait);
    assert_eq!(m.wait_for_key_at(10), Some(set(Line::ResetNot, true)));
    assert_eq!(m.wait_for_key_at(11), Some(set(Line::AnyNot, false)));
    assert_eq!(m.wait_for_key_at(12), Some(settle()));
    assert_eq!(m.wait_for_key_at(13), Some(Action::WaitForHigh));
    assert_eq!(m.wait_for_key_at(5_000), Some(set(Line::AnyNot, true)));
    assert_eq!(m.wait_for_key_at(5_001), None);
    // Activity was recorded at 5001: the next wait returns at once for
    // as long as no more than one millisecond has gone by.
    assert_eq!(m.wait_for_key_at(5_001), None);
    assert_eq!(m.wait_for_key_at(5_500), None);
    assert_eq!(m.wait_for_key_at(6_001), None);
    assert_eq!(m.wait_for_key_at(5_000), None);
    assert_eq!(m.wait_for_key_at(6_002), Some(set(Line::ResetNot, true)));
}

#[test]
fn scan_in_edge_wait_mode_sleeps_before_the_first_pass() {
    let mut m = matrix::<1, 1>(InputMode::EdgeWait);
    let mut bench = Bench::new(&[(0, 0)]);
    bench.passes(&mut m, 1);
    assert_eq!(
        bench.actions[..7],
        [
            set(Line::ResetNot, true),
            set(Line::AnyNot, false),
            settle(),
            Action::WaitForHigh,
            set(Line::AnyNot, true),
            set(Line::RowClock, false),
            set(Line::ColClock, false),
        ]
    );
    assert_eq!(bench.published, vec![KeyEvent { row: 0, col: 0, pressed: true }]);
}

#[test]
fn a_held_key_keeps_the_scanner_awake() {
    let mut m = matrix::<1, 1>(InputMode::EdgeWait);
    let mut bench = Bench::new(&[(0, 0)]);
    bench.passes(&mut m, 30);
    let waits = bench.actions.iter().filter(|a| **a == Action::WaitForHigh).count();
    assert_eq!(waits, 1);
}

#[test]
fn an_idle_scanner_goes_back_to_sleep() {
    let mut m = matrix::<1, 1>(InputMode::EdgeWait);
    let mut bench = Bench::new(&[(0, 0)]);
    bench.passes(&mut m, 1);
    bench.held.clear();
    // The release is seen in the second pass; from then on nothing
    // refreshes the record, and a millisecond later the scanner arms
    // the edge wait again.
    let mut event = ScanEvent::Resumed;
    let mut armed = false;
    for _ in 0..2_000 {
        let action = m.scan_at(event, bench.nanos / 1000);
        if action == Action::WaitForHigh {
            armed = true;
            break;
        }
        event = bench.perform(action);
    }
    assert!(armed);
    assert!(bench.nanos / 1000 > 1_000);
    assert!(bench.nanos / 1000 < 1_300);
    assert_eq!(bench.published.len(), 2);
}

#[test]
fn scan_reads_the_clock_itself() {
    let mut m = matrix::<1, 1>(InputMode::Polling);
    assert_eq!(m.wait_for_key(), None);
    assert_eq!(m.scan(ScanEvent::Resumed), set(Line::RowClock, false));
    let mut edge = matrix::<1, 1>(InputMode::EdgeWait);
    assert_eq!(edge.scan(ScanEvent::Resumed), set(Line::ResetNot, true));
    assert_eq!(edge.wait_for_key(), Some(set(Line::AnyNot, false)));
}

#[test]
fn offsetted_matrix_shifts_coordinates() {
    let mut inner = matrix::<2, 3>(InputMode::Polling);
    inner.update_key_state(1, 2, |key| key.pressed = true).unwrap();
    inner.update_key_state(0, 0, |key| key.pressed = true).unwrap();
    let mut expected = Vec::new();
    for row in 0..2 {
        for col in 0..3 {
            expected.push(inner.get_key_state(row, col));
        }
    }
    let mut m: OffsettedMatrix<_, 4, 5, 2, 3> = OffsettedMatrix::new(inner);
    let mut seen = Vec::new();
    for row in 0..2 {
        for col in 0..3 {
            seen.push(m.get_key_state(4 + row, 5 + col));
        }
    }
    assert_eq!(seen, expected);
    assert_eq!(m.get_key_state(4, 5), Ok(KeyState { pressed: true }));
    assert_eq!(m.get_key_state(5, 7), Ok(KeyState { pressed: true }));
    assert_eq!(m.get_key_state(5, 6), Ok(KeyState { pressed: false }));
}

#[test]
fn offsetted_matrix_rejects_coordinates_outside_the_window() {
    let mut m: OffsettedMatrix<_, 4, 5, 2, 3> =
        OffsettedMatrix::new(matrix::<2, 3>(InputMode::Polling));
    for (row, col) in [(3, 5), (4, 4), (0, 0), (1, 2), (6, 5), (4, 8), (usize::MAX, 5)] {
        assert_eq!(m.get_key_state(row, col), Err(MatrixError::OutOfRange));
        assert_eq!(
            m.update_key_state(row, col, |key| key.pressed = true),
            Err(MatrixError::OutOfRange)
        );
    }
    for row in 4..6 {
        for col in 5..8 {
            assert_eq!(m.get_key_state(row, col), Ok(KeyState { pressed: false }));
        }
    }
}

#[test]
fn offsetted_matrix_updates_the_wrapped_cell() {
    let mut m: OffsettedMatrix<_, 4, 5, 2, 3> =
        OffsettedMatrix::new(matrix::<2, 3>(InputMode::Polling));
    assert_eq!(m.update_key_state(5, 6, |key| key.toggle_pressed()), Ok(()));
    assert_eq!(m.get_key_state(5, 6), Ok(KeyState { pressed: true }));
    assert_eq!(m.inner_mut().get_key_state(1, 1), Ok(KeyState { pressed: true }));
    assert_eq!(m.inner_mut().get_key_state(0, 0), Ok(KeyState { pressed: false }));
}

#[test]
fn offsetted_matrix_scans_as_the_wrapped_matrix_does() {
    let mut plain = matrix::<2, 2>(InputMode::Polling);
    let mut wrapped: OffsettedMatrix<_, 2, 0, 2, 2> =
        OffsettedMatrix::new(matrix::<2, 2>(InputMode::Polling));
    let mut first = Bench::new(&[(1, 1)]);
    let mut second = Bench::new(&[(1, 1)]);
    first.passes(&mut plain, 3);
    second.passes(&mut wrapped, 3);
    assert_eq!(first.actions, second.actions);
    assert_eq!(second.published, vec![KeyEvent { row: 1, col: 1, pressed: true }]);
    assert_eq!(wrapped.get_key_state(3, 1), Ok(KeyState { pressed: true }));
    assert_eq!(wrapped.wait_for_key_at(0), None);
}

#[test]
fn every_event_follows_the_sample_of_its_cell() {
    let mut m = matrix::<3, 2>(InputMode::EdgeWait);
    let mut bench = Bench::new(&[(0, 1), (2, 0), (2, 1)]);
    bench.passes(&mut m, 1);
    bench.held = vec![(2, 1)];
    bench.passes(&mut m, 1);
    let mut events = 0;
    for (i, action) in bench.actions.iter().enumerate() {
        if let Action::Publish { event } = action {
            events += 1;
            assert_eq!(
                bench.actions[i - 1],
                Action::Sample {
                    row: event.row,
                    col: event.col,
                    state: KeyState { pressed: !event.pressed },
                }
            );
        }
    }
    assert_eq!(events, 5);
    assert_eq!(bench.debounced, 5);
}

#[test]
fn the_activity_window_is_one_millisecond() {
    let mut m = matrix::<1, 1>(InputMode::EdgeWait);
    let mut bench = Bench::new(&[(0, 0)]);
    // Wake up at 0 and sample the pressed key: activity is recorded when
    // its column pulse starts.
    let mut event = ScanEvent::Resumed;
    loop {
        let action = m.scan_at(event, 1_000);
        event = bench.perform(action);
        if action == (Action::Delay { nanos: SCAN_INTERVAL }) {
            break;
        }
    }
    let mut late = matrix::<1, 1>(InputMode::EdgeWait);
    let mut other = Bench::new(&[(0, 0)]);
    let mut event = ScanEvent::Resumed;
    loop {
        let action = late.scan_at(event, 1_000);
        event = other.perform(action);
        if action == (Action::Delay { nanos: SCAN_INTERVAL }) {
            break;
        }
    }
    // 1000 microseconds later the next pass starts at once; 1001
    // microseconds later the scanner goes to sleep first.
    assert_eq!(m.scan_at(ScanEvent::Resumed, 2_000), set(Line::RowClock, false));
    assert_eq!(late.scan_at(ScanEvent::Resumed, 2_001), set(Line::ResetNot, true));
}

#[test]
fn a_stale_record_is_cleared_and_stamped_anew() {
    let mut m = matrix::<1, 1>(InputMode::EdgeWait);
    for now in [0, 1, 2, 3, 5_000] {
        assert!(m.wait_for_key_at(now).is_some());
    }
    assert_eq!(m.wait_for_key_at(5_000), None);
    // A record that is 1500 microseconds old is stale: the wait arms,
    // listens, and stamps the time of the wake-up.
    assert_eq!(m.wait_for_key_at(6_500), Some(set(Line::ResetNot, true)));
    assert_eq!(m.wait_for_key_at(6_501), Some(set(Line::AnyNot, false)));
    assert_eq!(m.wait_for_key_at(6_502), Some(settle()));
    assert_eq!(m.wait_for_key_at(6_503), Some(Action::WaitForHigh));
    assert_eq!(m.wait_for_key_at(9_000), Some(set(Line::AnyNot, true)));
    assert_eq!(m.wait_for_key_at(9_001), None);
    assert_eq!(m.wait_for_key_at(10_001), None);
    assert_eq!(m.wait_for_key_at(10_002), Some(set(Line::ResetNot, true)));
}

#[test]
fn two_writes_around_a_pulse_edge_are_a_propagation_delay_apart() {
    for mode in [InputMode::Polling, InputMode::EdgeWait] {
        let mut m = matrix::<2, 2>(mode);
        let mut bench = Bench::new(&[(0, 1)]);
        bench.passes(&mut m, 3);
        let mut last_write: Option<(Action, u64)> = None;
        let mut nanos = 0;
        let mut pulses = 0;
        for action in &bench.actions {
            match action {
                Action::Delay { nanos: pause } => nanos += pause,
                Action::SetLine { line, high } => {
                    let edge = matches!(
                        (line, high),
                        (Line::ColClock, true) | (Line::RowClock, true)
                    );
                    if edge {
                        pulses += 1;
                        let (_, at) = last_write.unwrap();
                        assert!(nanos - at >= PROPAGATION_DELAY);
                    }
                    if let Some((Action::SetLine { line: before, high: true }, at)) = last_write {
                        if before == Line::ColClock || before == Line::RowClock {
                            assert!(nanos - at >= PROPAGATION_DELAY);
                        }
                    }
                    last_write = Some((*action, nanos));
                }
                _ => {}
            }
        }
        assert_eq!(pulses, 3 * (4 + 2));
    }
}
