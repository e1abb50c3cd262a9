//! The five physical lines of the shift-register chain.

use vstd::prelude::*;

verus! {

/// One of the four output lines.
#[derive(Clone, Copy, Debug, PartialEq, Eq, Structural)]
pub enum Line {
    /// Advances the chain by one row on a high-to-low pulse.
    RowClock,
    /// Advances the chain by one column on a high-to-low pulse.
    ColClock,
    /// Selects every cell at once while low.
    AnyNot,
    /// Puts the chain at row 0, column 0 on a low-to-high pulse.
    ResetNot,
}

/// Exclusive owner of the four output lines and the input line. Whoever
/// holds this value is the only writer of the lines.
pub struct SequentialMatrixPins<In, Out> {
    row_clock: Out,
    col_clock: Out,
    any_not: Out,
    reset_not: Out,
    input: In,
}

impl<In, Out> SequentialMatrixPins<In, Out> {
    /// The pin behind an output line.
    pub closed spec fn output(self, line: Line) -> Out {
        match line {
            Line::RowClock => self.row_clock,
            Line::ColClock => self.col_clock,
            Line::AnyNot => self.any_not,
            Line::ResetNot => self.reset_not,
        }
    }

    /// The input pin.
    pub closed spec fn input(self) -> In {
        self.input
    }

    /// Takes ownership of the five pins.
    pub fn new(row_clock: Out, col_clock: Out, any_not: Out, reset_not: Out, input: In) -> (pins:
        Self)
        ensures
            pins.output(Line::RowClock) == row_clock,
            pins.output(Line::ColClock) == col_clock,
            pins.output(Line::AnyNot) == any_not,
            pins.output(Line::ResetNot) == reset_not,
            pins.input() == input,
    {
        Self { row_clock, col_clock, any_not, reset_not, input }
    }

    /// Lends out the pin behind `line`. The other four pins stay as they
    /// are.
    pub fn output_mut(&mut self, line: Line) -> (pin: &mut Out)
        ensures
            *pin == old(self).output(line),
            final(self).output(line) == *final(pin),
            forall|other: Line| other != line ==> final(self).output(other) == old(self).output(other),
            final(self).input() == old(self).input(),
    {
        match line {
            Line::RowClock => &mut self.row_clock,
            Line::ColClock => &mut self.col_clock,
            Line::AnyNot => &mut self.any_not,
            Line::ResetNot => &mut self.reset_not,
        }
    }

    /// Lends out the input pin. The output pins stay as they are.
    pub fn input_mut(&mut self) -> (pin: &mut In)
        ensures
            *pin == old(self).input(),
            final(self).input() == *final(pin),
            forall|line: Line| final(self).output(line) == old(self).output(line),
    {
        &mut self.input
    }
}

} // verus!
