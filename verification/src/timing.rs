//! Settle times.
//!
//! No line changes its level twice without a propagation delay in between
//! ([`separated`]). Between lines the protocol is of two kinds. The start
//! of a pass and the edge wait set several lines one right after the
//! other, before the settle time that they share. The scan proper (the
//! release of the reset, the column pulse and the row pulse) keeps every
//! edge a settle time away from every other write, on whatever line
//! ([`edges_separated`]).

use vstd::prelude::*;
use crate::laws::{lemma_run_prefix, run, Input};
use crate::pins::Line;
use crate::protocol::{
    Action, InputMode, ScanEvent, ScanModel, ScanPhase, WaitPhase, PROPAGATION_DELAY,
};

verus! {

/// A pause of at least the propagation delay.
pub open spec fn settles(action: Action) -> bool {
    action matches Action::Delay { nanos } && nanos >= PROPAGATION_DELAY
}

/// The two actions drive the same line to different levels.
pub open spec fn conflicting(first: Action, second: Action) -> bool {
    &&& first matches Action::SetLine { line, high }
    &&& second matches Action::SetLine { line: again, high: level }
    &&& line == again
    &&& high != level
}

/// Between any two actions of the trace that drive one line to different
/// levels lies a pause of at least the propagation delay. Two consecutive
/// changes of a line's level are two such actions, so they are at least
/// that far apart on every clock.
pub open spec fn separated(trace: Seq<Action>) -> bool {
    forall|i: int, j: int|
        0 <= i < j < trace.len() && conflicting(#[trigger] trace[i], #[trigger] trace[j])
            ==> exists|k: int| i < k < j && settles(#[trigger] trace[k])
}

/// The lines that the trace has driven since its last settle time, each
/// with the level it was last driven to.
pub open spec fn pending(trace: Seq<Action>) -> Map<Line, bool>
    decreases trace.len(),
{
    if trace.len() == 0 {
        Map::empty()
    } else {
        match trace.last() {
            Action::SetLine { line, high } => pending(trace.drop_last()).insert(line, high),
            Action::Delay { nanos } => if nanos >= PROPAGATION_DELAY {
                Map::empty()
            } else {
                pending(trace.drop_last())
            },
            _ => pending(trace.drop_last()),
        }
    }
}

/// No action of the trace drives a line to another level than the one it
/// was driven to since the last settle time.
pub open spec fn well_timed(trace: Seq<Action>) -> bool
    decreases trace.len(),
{
    trace.len() == 0 || {
        &&& well_timed(trace.drop_last())
        &&& trace.last() matches Action::SetLine { line, high } ==> (pending(
            trace.drop_last(),
        ).contains_key(line) ==> pending(trace.drop_last())[line] == high)
    }
}

/// True where the scanner in state `m` may have driven `line` to `high`
/// since the last settle time.
pub open spec fn expects(m: ScanModel, line: Line, high: bool) -> bool {
    match m.phase {
        ScanPhase::Wake => m.mode == InputMode::EdgeWait && match m.wait {
            WaitPhase::Arm => line == Line::ResetNot && high,
            WaitPhase::Settle => (line == Line::ResetNot && high) || (line == Line::AnyNot
                && !high),
            WaitPhase::Stamp => line == Line::AnyNot && high,
            _ => false,
        },
        ScanPhase::ResetColClock => (line == Line::RowClock && !high) || (line == Line::AnyNot
            && high),
        ScanPhase::Deselect | ScanPhase::ResetAssert => (line == Line::RowClock && !high) || (line
            == Line::ColClock && !high) || (line == Line::AnyNot && high),
        ScanPhase::ResetHold => (line == Line::RowClock && !high) || (line == Line::ColClock
            && !high) || (line == Line::AnyNot && high) || (line == Line::ResetNot && !high),
        ScanPhase::ResetSettle => line == Line::ResetNot && high,
        ScanPhase::ColumnHold => line == Line::ColClock && high,
        ScanPhase::ColumnSettle => line == Line::ColClock && !high,
        ScanPhase::RowHold => line == Line::RowClock && high,
        ScanPhase::RowSettle => line == Line::RowClock && !high,
        _ => false,
    }
}

/// Every line that is pending is one that the scanner may have driven, at
/// that level.
pub open spec fn coupled(m: ScanModel, lines: Map<Line, bool>) -> bool {
    forall|line: Line| #[trigger] lines.contains_key(line) ==> expects(m, line, lines[line])
}

proof fn lemma_step_well_timed(m: ScanModel, trace: Seq<Action>, event: ScanEvent, now: u64)
    requires
        well_timed(trace),
        coupled(m, pending(trace)),
    ensures
        well_timed(trace.push(m.scan_step(event, now).1)),
        coupled(m.scan_step(event, now).0, pending(trace.push(m.scan_step(event, now).1))),
{
    let (next, action) = m.scan_step(event, now);
    let after = trace.push(action);
    assert(after.drop_last() == trace);
    assert(after.last() == action);
    match action {
        Action::SetLine { line, high } => {
            assert(pending(trace).contains_key(line) ==> expects(m, line, pending(trace)[line]));
            assert forall|other: Line| #[trigger]
                pending(after).contains_key(other) implies expects(
                next,
                other,
                pending(after)[other],
            ) by {
                if other != line {
                    assert(pending(trace).contains_key(other));
                }
            }
        },
        _ => {
            assert forall|other: Line| #[trigger]
                pending(after).contains_key(other) implies expects(
                next,
                other,
                pending(after)[other],
            ) by {
                assert(pending(trace).contains_key(other));
            }
        },
    }
}

proof fn lemma_run_coupled(m: ScanModel, inputs: Seq<Input>)
    ensures
        well_timed(run(m, inputs).1),
        coupled(run(m, inputs).0, pending(run(m, inputs).1)),
    decreases inputs.len(),
{
    if inputs.len() > 0 {
        lemma_run_coupled(m, inputs.drop_last());
        let (before, trace) = run(m, inputs.drop_last());
        lemma_step_well_timed(before, trace, inputs.last().event, inputs.last().now);
    }
}

proof fn lemma_well_timed_prefix(trace: Seq<Action>, n: int)
    requires
        well_timed(trace),
        0 <= n <= trace.len(),
    ensures
        well_timed(trace.take(n)),
    decreases trace.len(),
{
    if n < trace.len() {
        lemma_well_timed_prefix(trace.drop_last(), n);
        assert(trace.drop_last().take(n) == trace.take(n));
    } else {
        assert(trace.take(n) == trace);
    }
}

proof fn lemma_pending_keeps_write(trace: Seq<Action>, i: int, line: Line, high: bool)
    requires
        well_timed(trace),
        0 <= i < trace.len(),
        trace[i] == (Action::SetLine { line, high }),
        forall|k: int| i < k < trace.len() ==> !settles(#[trigger] trace[k]),
    ensures
        pending(trace).contains_key(line),
        pending(trace)[line] == high,
    decreases trace.len(),
{
    if i < trace.len() - 1 {
        let prefix = trace.drop_last();
        assert forall|k: int| i < k < prefix.len() implies !settles(#[trigger] prefix[k]) by {
            assert(prefix[k] == trace[k]);
        }
        assert(prefix[i] == trace[i]);
        lemma_pending_keeps_write(prefix, i, line, high);
        assert(!settles(trace[trace.len() - 1]));
    }
}

/// A trace that never drives a line to another level than the pending one
/// keeps its conflicting actions a settle time apart.
pub proof fn lemma_well_timed_is_separated(trace: Seq<Action>)
    requires
        well_timed(trace),
    ensures
        separated(trace),
{
    assert forall|i: int, j: int|
        0 <= i < j < trace.len() && conflicting(
            #[trigger] trace[i],
            #[trigger] trace[j],
        ) implies exists|k: int| i < k < j && settles(#[trigger] trace[k]) by {
        if forall|k: int| i < k < j ==> !settles(#[trigger] trace[k]) {
            let before = trace.take(j);
            let upto = trace.take(j + 1);
            lemma_well_timed_prefix(trace, j + 1);
            assert(upto.drop_last() == before);
            assert(upto.last() == trace[j]);
            assert(before[i] == trace[i]);
            assert forall|k: int| i < k < before.len() implies !settles(#[trigger] before[k]) by {
                assert(before[k] == trace[k]);
            }
            match trace[i] {
                Action::SetLine { line, high } => {
                    lemma_pending_keeps_write(before, i, line, high);
                },
                _ => {},
            }
            assert(false);
        }
    }
}

/// Line changes keep their distance: in every run of the scanner, from
/// whatever state, two actions that drive one line to different levels
/// have a pause of at least the propagation delay between them.
pub proof fn lemma_run_separated(m: ScanModel, inputs: Seq<Input>)
    ensures
        separated(run(m, inputs).1),
{
    lemma_run_coupled(m, inputs);
    lemma_well_timed_is_separated(run(m, inputs).1);
}

/// The state in which a write belongs to the scan proper: it is the
/// release of the reset, or an edge of the column pulse or of the row pulse.
pub open spec fn paced(m: ScanModel) -> bool {
    m.phase is ResetRelease || m.phase is Decide || m.phase is ColumnRise || m.phase is ColumnFall
        || m.phase is RowRise || m.phase is RowFall
}

/// The state in which step `i` of the run is taken.
pub open spec fn state_at(m: ScanModel, inputs: Seq<Input>, i: int) -> ScanModel {
    run(m, inputs.take(i)).0
}

/// Between any two line writes of the run, of which at least one belongs
/// to the scan proper, lies a pause of at least the propagation delay,
/// whether the two drive the same line or two different ones.
pub open spec fn edges_separated(m: ScanModel, inputs: Seq<Input>) -> bool {
    forall|i: int, j: int|
        0 <= i < j < inputs.len() && #[trigger] run(m, inputs).1[i] is SetLine && #[trigger] run(
            m,
            inputs,
        ).1[j] is SetLine && (paced(state_at(m, inputs, i)) || paced(state_at(m, inputs, j)))
            ==> exists|k: int| i < k < j && settles(#[trigger] run(m, inputs).1[k])
}

/// Step `i` of a run is the protocol's step from the state that the run
/// has reached by then.
pub proof fn lemma_step_at(m: ScanModel, inputs: Seq<Input>, i: int)
    requires
        0 <= i < inputs.len(),
    ensures
        run(m, inputs).1.len() == inputs.len(),
        run(m, inputs).1[i] == state_at(m, inputs, i).scan_step(inputs[i].event, inputs[i].now).1,
        state_at(m, inputs, i + 1) == state_at(m, inputs, i).scan_step(
            inputs[i].event,
            inputs[i].now,
        ).0,
{
    let upto = inputs.take(i + 1);
    lemma_run_prefix(m, inputs, i + 1);
    assert(upto.drop_last() == inputs.take(i));
    assert(upto.last() == inputs[i]);
    assert(run(m, upto).1.last() == run(m, inputs).1[i]);
}

proof fn lemma_settled_since(trace: Seq<Action>, i: int)
    requires
        forall|line: Line| !pending(trace).contains_key(line),
        0 <= i < trace.len(),
        trace[i] is SetLine,
    ensures
        exists|k: int| i < k < trace.len() && settles(#[trigger] trace[k]),
    decreases trace.len(),
{
    let prefix = trace.drop_last();
    match trace.last() {
        Action::SetLine { line, high } => {
            assert(pending(trace).contains_key(line));
        },
        Action::Delay { nanos } => {
            if nanos >= PROPAGATION_DELAY {
                assert(settles(trace[trace.len() - 1]));
            } else {
                assert(pending(prefix) == pending(trace));
                assert(prefix[i] == trace[i]);
                lemma_settled_since(prefix, i);
                let k = choose|k: int| i < k < prefix.len() && settles(#[trigger] prefix[k]);
                assert(settles(trace[k]));
            }
        },
        _ => {
            assert(pending(prefix) == pending(trace));
            assert(prefix[i] == trace[i]);
            lemma_settled_since(prefix, i);
            let k = choose|k: int| i < k < prefix.len() && settles(#[trigger] prefix[k]);
            assert(settles(trace[k]));
        },
    }
}

/// The scan proper keeps its edges apart from every other write: in every
/// run of the scanner, from whatever state, a line write that releases the
/// reset or is an edge of the column pulse or of the row pulse has a pause
/// of at least the propagation delay between it and every other line
/// write, before it and after it.
pub proof fn lemma_run_edges_separated(m: ScanModel, inputs: Seq<Input>)
    ensures
        edges_separated(m, inputs),
{
    let trace = run(m, inputs).1;
    assert forall|i: int, j: int|
        0 <= i < j < inputs.len() && #[trigger] trace[i] is SetLine && #[trigger] trace[j] is SetLine
            && (paced(state_at(m, inputs, i)) || paced(
            state_at(m, inputs, j),
        )) implies exists|k: int| i < k < j && settles(#[trigger] trace[k]) by {
        lemma_step_at(m, inputs, i);
        lemma_step_at(m, inputs, j);
        if paced(state_at(m, inputs, i)) {
            lemma_step_at(m, inputs, i + 1);
            assert(settles(trace[i + 1]));
        } else {
            let before = run(m, inputs.take(j)).1;
            lemma_run_coupled(m, inputs.take(j));
            lemma_run_prefix(m, inputs, j);
            assert forall|line: Line| !pending(before).contains_key(line) by {
                if pending(before).contains_key(line) {
                    assert(expects(state_at(m, inputs, j), line, pending(before)[line]));
                }
            }
            assert(before[i] == trace[i]);
            lemma_settled_since(before, i);
            let k = choose|k: int| i < k < before.len() && settles(#[trigger] before[k]);
            assert(settles(trace[k]));
        }
    }
}

} // verus!
