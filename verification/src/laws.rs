//! What holds of every run of the scanner.
//!
//! A run is the protocol's step function applied to a sequence of inputs.
//! The executable scanner takes exactly these steps, so what is proved here
//! of [`run`] holds of every sequence of calls of `scan_at`.

use vstd::prelude::*;
use vstd::arithmetic::div_mod::lemma_fundamental_div_mod_converse;
use crate::key::{DebounceState, KeyEvent, KeyState};
use crate::protocol::{Action, InputMode, ScanEvent, ScanModel, ScanPhase, SCAN_INTERVAL};

verus! {

/// What one step is given: the outcome of the previous action and the time.
pub struct Input {
    pub event: ScanEvent,
    pub now: u64,
}

/// The state after the steps that `inputs` drive, and the actions that
/// these steps asked for, in order.
pub open spec fn run(m: ScanModel, inputs: Seq<Input>) -> (ScanModel, Seq<Action>)
    decreases inputs.len(),
{
    if inputs.len() == 0 {
        (m, Seq::empty())
    } else {
        let (before, trace) = run(m, inputs.drop_last());
        let (after, action) = before.scan_step(inputs.last().event, inputs.last().now);
        (after, trace.push(action))
    }
}

/// Every sample of the run is answered: wherever a decision is awaited,
/// the input brings one.
pub open spec fn answered(m: ScanModel, inputs: Seq<Input>) -> bool
    decreases inputs.len(),
{
    inputs.len() == 0 || {
        &&& answered(m, inputs.drop_last())
        &&& run(m, inputs.drop_last()).0.phase is Decide ==> inputs.last().event is Sampled
    }
}

/// Every decision of the run was asked for: an input brings one only
/// where a decision is awaited.
pub open spec fn solicited(m: ScanModel, inputs: Seq<Input>) -> bool
    decreases inputs.len(),
{
    inputs.len() == 0 || {
        &&& solicited(m, inputs.drop_last())
        &&& inputs.last().event is Sampled ==> run(m, inputs.drop_last()).0.phase is Decide
    }
}

/// The cells that a trace samples, in order.
pub open spec fn sampled(trace: Seq<Action>) -> Seq<(nat, nat)>
    decreases trace.len(),
{
    if trace.len() == 0 {
        Seq::empty()
    } else {
        match trace.last() {
            Action::Sample { row, col, .. } => sampled(trace.drop_last()).push(
                (row as nat, col as nat),
            ),
            _ => sampled(trace.drop_last()),
        }
    }
}

/// The number of events that a trace publishes.
pub open spec fn published(trace: Seq<Action>) -> nat
    decreases trace.len(),
{
    if trace.len() == 0 {
        0
    } else if trace.last() is Publish {
        published(trace.drop_last()) + 1
    } else {
        published(trace.drop_last())
    }
}

/// The number of passes that a trace ends: its pauses for the scan
/// interval.
pub open spec fn passes(trace: Seq<Action>) -> nat
    decreases trace.len(),
{
    if trace.len() == 0 {
        0
    } else if trace.last() == (Action::Delay { nanos: SCAN_INTERVAL }) {
        passes(trace.drop_last()) + 1
    } else {
        passes(trace.drop_last())
    }
}

/// The number of inputs that bring the decision `Debounced`.
pub open spec fn debounced(inputs: Seq<Input>) -> nat
    decreases inputs.len(),
{
    if inputs.len() == 0 {
        0
    } else if inputs.last().event == (ScanEvent::Sampled { decision: DebounceState::Debounced }) {
        debounced(inputs.drop_last()) + 1
    } else {
        debounced(inputs.drop_last())
    }
}

/// The cells of a `rows` x `cols` matrix in row-major order: cell `k` is
/// `(k / cols, k % cols)`, so the column varies fastest.
pub open spec fn row_major(rows: nat, cols: nat) -> Seq<(nat, nat)> {
    Seq::new(rows * cols, |k: int| ((k / cols as int) as nat, (k % cols as int) as nat))
}

/// The place of cell `(row, col)` in the row-major order of a matrix with
/// `cols` columns.
pub open spec fn cell_index(cols: nat, row: nat, col: nat) -> int {
    (row * cols + col) as int
}

/// `s` written `n` times in a row.
pub open spec fn repeated<T>(s: Seq<T>, n: nat) -> Seq<T>
    decreases n,
{
    if n == 0 {
        Seq::empty()
    } else {
        repeated(s, (n - 1) as nat) + s
    }
}

/// The number of cells that the pass under way has sampled when the
/// scanner is in state `m`.
pub open spec fn progress(m: ScanModel) -> nat {
    match m.phase {
        ScanPhase::Sample => m.row * m.cols + m.col,
        ScanPhase::Decide
        | ScanPhase::ColumnRise
        | ScanPhase::ColumnHold
        | ScanPhase::ColumnFall
        | ScanPhase::ColumnSettle => m.row * m.cols + m.col + 1,
        ScanPhase::RowRise | ScanPhase::RowHold | ScanPhase::RowFall | ScanPhase::RowSettle => (
        m.row + 1) * m.cols,
        ScanPhase::Rest => m.rows * m.cols,
        _ => 0,
    }
}

/// The scanner starts well-formed.
pub proof fn lemma_initial_wf(rows: nat, cols: nat, mode: InputMode)
    requires
        rows <= usize::MAX,
        cols <= usize::MAX,
    ensures
        ScanModel::initial(rows, cols, mode).wf(),
{
}

/// A step of an edge wait keeps the model well-formed and touches neither
/// the key states nor the scan's progress.
pub proof fn lemma_wait_step_wf(m: ScanModel, now: u64)
    requires
        m.wf(),
    ensures
        m.wait_step(now).0.wf(),
        m.wait_step(now).0 == (ScanModel {
            scan_start: m.wait_step(now).0.scan_start,
            wait: m.wait_step(now).0.wait,
            ..m
        }),
{
}

/// A step of the scan keeps the model well-formed, with the same extents
/// and the same input mode.
pub proof fn lemma_scan_step_wf(m: ScanModel, event: ScanEvent, now: u64)
    requires
        m.wf(),
    ensures
        m.scan_step(event, now).0.wf(),
        m.scan_step(event, now).0.rows == m.rows,
        m.scan_step(event, now).0.cols == m.cols,
        m.scan_step(event, now).0.mode == m.mode,
{
    lemma_wait_step_wf(m, now);
    if m.phase is Decide {
        assert(m.toggled().grid_wf()) by {
            assert forall|r: int| 0 <= r < m.rows implies (#[trigger] m.toggled().grid[r]).len()
                == m.cols by {
                assert(m.grid[r].len() == m.cols);
            }
        }
    }
}

/// A run keeps the model well-formed, with the same extents and the
/// same input mode, and asks for one action per input.
pub proof fn lemma_run_wf(m: ScanModel, inputs: Seq<Input>)
    requires
        m.wf(),
    ensures
        run(m, inputs).0.wf(),
        run(m, inputs).0.rows == m.rows,
        run(m, inputs).0.cols == m.cols,
        run(m, inputs).0.mode == m.mode,
        run(m, inputs).1.len() == inputs.len(),
    decreases inputs.len(),
{
    if inputs.len() > 0 {
        lemma_run_wf(m, inputs.drop_last());
        lemma_scan_step_wf(run(m, inputs.drop_last()).0, inputs.last().event, inputs.last().now);
    }
}

/// An event is published exactly where the debouncer reports a stable
/// transition of the cell that was sampled. The event names that cell and
/// its new state, the cell is flipped, and no other cell changes. Every
/// other step leaves all key states as they are.
pub proof fn lemma_publish_iff_debounced(m: ScanModel, event: ScanEvent, now: u64)
    requires
        m.wf(),
    ensures
        ({
            let (next, action) = m.scan_step(event, now);
            if m.phase is Decide && event == (ScanEvent::Sampled {
                decision: DebounceState::Debounced,
            }) {
                &&& action == Action::Publish { event: m.transition() }
                &&& m.transition().row == m.row
                &&& m.transition().col == m.col
                &&& m.transition().pressed == !m.cell().pressed
                &&& next.grid[m.row as int][m.col as int] == (KeyState {
                    pressed: m.transition().pressed,
                })
                &&& forall|r: int, c: int|
                    0 <= r < m.rows && 0 <= c < m.cols && (r, c) != (m.row as int, m.col as int)
                        ==> next.grid[r][c] == m.grid[r][c]
            } else {
                &&& !(action is Publish)
                &&& next.grid == m.grid
            }
        }),
{
    lemma_wait_step_wf(m, now);
}

/// The start of a run is the run of the start of its inputs.
pub proof fn lemma_run_prefix(m: ScanModel, inputs: Seq<Input>, n: int)
    requires
        0 <= n <= inputs.len(),
    ensures
        run(m, inputs.take(n)).1 == run(m, inputs).1.take(n),
        run(m, inputs).1.len() == inputs.len(),
    decreases inputs.len(),
{
    if inputs.len() == 0 {
        assert(inputs.take(n) == inputs);
        assert(run(m, inputs).1.take(n) == run(m, inputs).1);
    } else if n == inputs.len() {
        lemma_run_prefix(m, inputs.drop_last(), n - 1);
        assert(inputs.take(n) == inputs);
        assert(run(m, inputs).1.take(n) == run(m, inputs).1);
    } else {
        lemma_run_prefix(m, inputs.drop_last(), n);
        assert(inputs.drop_last().take(n) == inputs.take(n));
        assert(run(m, inputs).1.take(n) == run(m, inputs.drop_last()).1.take(n));
    }
}

proof fn lemma_decision_follows_sample(m: ScanModel, inputs: Seq<Input>)
    requires
        m.wf(),
        !(m.phase is Decide),
    ensures
        run(m, inputs).0.phase is Decide ==> inputs.len() > 0 && run(m, inputs).1.last() == run(
            m,
            inputs,
        ).0.sample(),
    decreases inputs.len(),
{
    if inputs.len() > 0 {
        lemma_decision_follows_sample(m, inputs.drop_last());
        lemma_run_wf(m, inputs.drop_last());
        let before = run(m, inputs.drop_last()).0;
        lemma_wait_step_wf(before, inputs.last().now);
    }
}

/// Events are published in scan order: in a run that starts outside a
/// decision, every published event stands right behind the sample of its
/// cell, answers a `Debounced` decision on that sample, and reports the
/// opposite of the state that was sampled.
pub proof fn lemma_publish_follows_sample(m: ScanModel, inputs: Seq<Input>, i: int)
    requires
        m.wf(),
        !(m.phase is Decide),
        0 <= i < inputs.len(),
        run(m, inputs).1[i] is Publish,
    ensures
        i > 0,
        inputs[i].event == (ScanEvent::Sampled { decision: DebounceState::Debounced }),
        run(m, inputs).1[i - 1] is Sample,
        ({
            let sample = run(m, inputs).1[i - 1];
            run(m, inputs).1[i] == Action::Publish {
                event: KeyEvent {
                    row: sample->row,
                    col: sample->col,
                    pressed: !sample->state.pressed,
                },
            }
        }),
{
    let upto = inputs.take(i + 1);
    let before = run(m, upto.drop_last()).0;
    lemma_run_prefix(m, inputs, i + 1);
    lemma_run_prefix(m, inputs, i);
    assert(upto.drop_last() == inputs.take(i));
    assert(upto.last() == inputs[i]);
    assert(run(m, upto).1.last() == run(m, inputs).1[i]);
    lemma_run_wf(m, upto.drop_last());
    lemma_publish_iff_debounced(before, inputs[i].event, inputs[i].now);
    lemma_decision_follows_sample(m, upto.drop_last());
    assert(run(m, inputs.take(i)).1.last() == run(m, inputs).1[i - 1]);
}

/// The scanner publishes one event per stable transition that the
/// debouncer reports, no more and no fewer: where every decision was
/// asked for, a run publishes as many events as its inputs bring
/// `Debounced` decisions.
pub proof fn lemma_published_equals_debounced(m: ScanModel, inputs: Seq<Input>)
    requires
        m.wf(),
        solicited(m, inputs),
    ensures
        published(run(m, inputs).1) == debounced(inputs),
    decreases inputs.len(),
{
    if inputs.len() > 0 {
        let before = run(m, inputs.drop_last()).0;
        lemma_published_equals_debounced(m, inputs.drop_last());
        lemma_run_wf(m, inputs.drop_last());
        lemma_publish_iff_debounced(before, inputs.last().event, inputs.last().now);
        assert(run(m, inputs).1.drop_last() == run(m, inputs.drop_last()).1);
    }
}

/// Scans that see no change change nothing: a run whose inputs bring no
/// `Debounced` decision publishes no event and leaves every key state as
/// it was, however many passes it makes.
pub proof fn lemma_idle_run(m: ScanModel, inputs: Seq<Input>)
    requires
        m.wf(),
        debounced(inputs) == 0,
    ensures
        published(run(m, inputs).1) == 0,
        run(m, inputs).0.grid == m.grid,
    decreases inputs.len(),
{
    if inputs.len() > 0 {
        let before = run(m, inputs.drop_last()).0;
        lemma_idle_run(m, inputs.drop_last());
        lemma_run_wf(m, inputs.drop_last());
        lemma_publish_iff_debounced(before, inputs.last().event, inputs.last().now);
        assert(run(m, inputs).1.drop_last() == run(m, inputs.drop_last()).1);
    }
}

/// Cell `row * cols + col` of the row-major order is `(row, col)`.
pub proof fn lemma_row_major_index(rows: nat, cols: nat, row: nat, col: nat)
    requires
        row < rows,
        col < cols,
    ensures
        row * cols + col < rows * cols,
        row_major(rows, cols).len() == rows * cols,
        row_major(rows, cols)[cell_index(cols, row, col)] == (row, col),
{
    assert(row * cols + col < rows * cols) by (nonlinear_arith)
        requires
            row < rows,
            col < cols,
    ;
    lemma_fundamental_div_mod_converse(
        (row * cols + col) as int,
        cols as int,
        row as int,
        col as int,
    );
}

/// What one step adds to the cells sampled: a sample asks for the cell
/// that is next in row-major order, the pause between passes starts the
/// order anew, and every other step leaves the count as it is.
pub proof fn lemma_step_progress(m: ScanModel, event: ScanEvent, now: u64)
    requires
        m.wf(),
        m.phase is Decide ==> event is Sampled,
    ensures
        progress(m) <= m.rows * m.cols,
        ({
            let (next, action) = m.scan_step(event, now);
            match action {
                Action::Sample { row, col, .. } => {
                    &&& progress(m) < m.rows * m.cols
                    &&& row_major(m.rows, m.cols)[progress(m) as int] == (row as nat, col as nat)
                    &&& progress(next) == progress(m) + 1
                },
                Action::Delay { nanos } => if nanos == SCAN_INTERVAL {
                    progress(m) == m.rows * m.cols && progress(next) == 0
                } else {
                    progress(next) == progress(m)
                },
                _ => progress(next) == progress(m),
            }
        }),
{
    lemma_wait_step_wf(m, now);
    let (rows, cols, row, col) = (m.rows, m.cols, m.row, m.col);
    if m.phase.in_cell() {
        lemma_row_major_index(rows, cols, row, col);
    }
    if m.phase.in_row() {
        assert((row + 1) * cols <= rows * cols) by (nonlinear_arith)
            requires
                row < rows,
        ;
        assert((row + 1) * cols == row * cols + cols) by (nonlinear_arith);
        assert(rows == row + 1 ==> rows * cols == (row + 1) * cols);
        assert(cols == 0 ==> (row + 2) * cols == (row + 1) * cols) by (nonlinear_arith);
        assert((row + 1) * cols + 0 == (row + 1) * cols);
    }
    assert(0 * cols == 0 && (0 + 1) * cols == cols && rows == 0 ==> rows * cols == 0);
    assert(rows == 0 ==> rows * cols == 0);
}

/// Every pass samples every cell exactly once, in row-major order.
///
/// Where every sample is answered, the cells that a run has sampled,
/// written behind those that the pass under way had sampled before the run,
/// are the whole row-major order once per pass that the run ended, followed
/// by the start of that order up to the cell that comes next.
pub proof fn lemma_row_major_scan(m: ScanModel, inputs: Seq<Input>)
    requires
        m.wf(),
        answered(m, inputs),
    ensures
        progress(m) <= m.rows * m.cols,
        progress(run(m, inputs).0) <= m.rows * m.cols,
        row_major(m.rows, m.cols).take(progress(m) as int) + sampled(run(m, inputs).1)
            == repeated(row_major(m.rows, m.cols), passes(run(m, inputs).1)) + row_major(
            m.rows,
            m.cols,
        ).take(progress(run(m, inputs).0) as int),
    decreases inputs.len(),
{
    let order = row_major(m.rows, m.cols);
    let (after, trace) = run(m, inputs);
    if inputs.len() == 0 {
        lemma_step_progress(m, ScanEvent::Sampled { decision: DebounceState::NoChange }, 0);
        assert(repeated(order, 0) + order.take(progress(m) as int) =~= order.take(
            progress(m) as int,
        ) + sampled(trace));
    } else {
        let (before, prefix) = run(m, inputs.drop_last());
        lemma_row_major_scan(m, inputs.drop_last());
        lemma_run_wf(m, inputs.drop_last());
        lemma_step_progress(before, inputs.last().event, inputs.last().now);
        lemma_scan_step_wf(before, inputs.last().event, inputs.last().now);
        assert(trace.drop_last() == prefix);
        let action = trace.last();
        let start = order.take(progress(m) as int);
        let p = progress(before) as int;
        let n = passes(prefix);
        assert(start + sampled(prefix) == repeated(order, n) + order.take(p));
        match action {
            Action::Sample { row, col, .. } => {
                assert(order.take(p + 1) =~= order.take(p).push((row as nat, col as nat)));
                assert(start + sampled(trace) =~= (start + sampled(prefix)).push(
                    (row as nat, col as nat),
                ));
                assert(repeated(order, n) + order.take(p + 1) =~= (repeated(order, n)
                    + order.take(p)).push((row as nat, col as nat)));
            },
            Action::Delay { nanos } => {
                if nanos == SCAN_INTERVAL {
                    assert(order.take(p) =~= order);
                    assert(repeated(order, n + 1) + order.take(0) =~= repeated(order, n)
                        + order.take(p));
                }
            },
            _ => {},
        }
    }
}

/// One pass from its start: a run that starts where no cell of the pass
/// has been sampled, answers every sample and ends one pass has sampled
/// every cell exactly once, cell number `row * cols + col` being
/// `(row, col)`.
pub proof fn lemma_one_pass(m: ScanModel, inputs: Seq<Input>)
    requires
        m.wf(),
        answered(m, inputs),
        progress(m) == 0,
        passes(run(m, inputs).1) == 1,
        progress(run(m, inputs).0) == 0,
    ensures
        sampled(run(m, inputs).1) == row_major(m.rows, m.cols),
        sampled(run(m, inputs).1).len() == m.rows * m.cols,
        forall|row: nat, col: nat|
            row < m.rows && col < m.cols ==> #[trigger] sampled(
                run(m, inputs).1,
            )[cell_index(m.cols, row, col)] == (row, col),
{
    let order = row_major(m.rows, m.cols);
    lemma_row_major_scan(m, inputs);
    assert(repeated(order, 1) =~= order) by {
        assert(repeated(order, 0) =~= Seq::<(nat, nat)>::empty());
    }
    assert(order.take(0) + sampled(run(m, inputs).1) =~= sampled(run(m, inputs).1));
    assert(repeated(order, 1) + order.take(0) =~= order);
    assert forall|row: nat, col: nat| row < m.rows && col < m.cols implies #[trigger] order[cell_index(
        m.cols,
        row,
        col,
    )] == (row, col) by {
        lemma_row_major_index(m.rows, m.cols, row, col);
    }
}

} // verus!
