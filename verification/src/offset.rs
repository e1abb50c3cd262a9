//! A matrix presented as a window of a larger coordinate space.

use vstd::prelude::*;
use crate::key::KeyState;
use crate::matrix::{within, MatrixError, MatrixTrait};
use crate::protocol::{Action, ScanEvent, ScanModel};

verus! {

/// Presents the matrix that it wraps as the window
/// `[ROW_OFFSET, ROW_OFFSET + ROW) x [COL_OFFSET, COL_OFFSET + COL)` of a
/// larger matrix, as one half of a split keyboard is a window of the whole.
///
/// Coordinates are shifted by subtracting the offsets; coordinates
/// outside the window are an error. Scanning is the wrapped matrix's own.
pub struct OffsettedMatrix<
    M,
    const ROW_OFFSET: usize,
    const COL_OFFSET: usize,
    const ROW: usize,
    const COL: usize,
> {
    matrix: M,
}

impl<
    M: MatrixTrait,
    const ROW_OFFSET: usize,
    const COL_OFFSET: usize,
    const ROW: usize,
    const COL: usize,
> OffsettedMatrix<M, ROW_OFFSET, COL_OFFSET, ROW, COL> {
    /// The wrapped matrix.
    pub closed spec fn inner(&self) -> M {
        self.matrix
    }

    /// True where `(row, col)` lies in the window.
    pub open spec fn in_window(row: int, col: int) -> bool {
        &&& ROW_OFFSET <= row < ROW_OFFSET + ROW
        &&& COL_OFFSET <= col < COL_OFFSET + COL
    }

    /// Wraps `matrix`.
    pub fn new(matrix: M) -> (offsetted: Self)
        ensures
            offsetted.inner() == matrix,
            matrix.valid() ==> offsetted.valid(),
    {
        Self { matrix }
    }

    /// Lends out the wrapped matrix.
    pub fn inner_mut(&mut self) -> (matrix: &mut M)
        ensures
            *matrix == old(self).inner(),
            final(self).inner() == *final(matrix),
    {
        &mut self.matrix
    }

    /// The window shifts coordinates by the offsets and does nothing else:
    /// `(ROW_OFFSET + row, COL_OFFSET + col)` names the cell that the
    /// wrapped matrix knows as `(row, col)`, for every `row < ROW` and
    /// `col < COL`; and coordinates below an offset, or past the window,
    /// name no cell.
    pub proof fn lemma_window(row: int, col: int)
        ensures
            0 <= row < ROW && 0 <= col < COL ==> Self::locate(ROW_OFFSET + row, COL_OFFSET + col)
                == M::locate(row, col),
            row < ROW_OFFSET || col < COL_OFFSET ==> Self::locate(row, col) is None,
            row >= ROW_OFFSET + ROW || col >= COL_OFFSET + COL ==> Self::locate(row, col) is None,
    {
    }

    fn window_cell(row: usize, col: usize) -> (cell: Option<(usize, usize)>)
        ensures
            cell == if Self::in_window(row as int, col as int) {
                Some(((row - ROW_OFFSET) as usize, (col - COL_OFFSET) as usize))
            } else {
                None
            },
    {
        if row >= ROW_OFFSET && row - ROW_OFFSET < ROW && col >= COL_OFFSET && col - COL_OFFSET
            < COL {
            Some((row - ROW_OFFSET, col - COL_OFFSET))
        } else {
            None
        }
    }
}

impl<
    M: MatrixTrait,
    const ROW_OFFSET: usize,
    const COL_OFFSET: usize,
    const ROW: usize,
    const COL: usize,
> MatrixTrait for OffsettedMatrix<M, ROW_OFFSET, COL_OFFSET, ROW, COL> {
    open spec fn model(&self) -> ScanModel {
        self.inner().model()
    }

    open spec fn valid(&self) -> bool {
        self.inner().valid()
    }

    proof fn lemma_valid(&self) {
        self.inner().lemma_valid();
        assert forall|row: int, col: int|
            within(#[trigger] Self::locate(row, col), self.model().rows, self.model().cols) by {
            if Self::in_window(row, col) {
                assert(within(
                    M::locate(row - ROW_OFFSET, col - COL_OFFSET),
                    self.inner().model().rows,
                    self.inner().model().cols,
                ));
            }
        }
    }

    open spec fn locate(row: int, col: int) -> Option<(int, int)> {
        if Self::in_window(row, col) {
            M::locate(row - ROW_OFFSET, col - COL_OFFSET)
        } else {
            None
        }
    }

    fn wait_for_key_at(&mut self, now: u64) -> (action: Option<Action>) {
        self.matrix.wait_for_key_at(now)
    }

    fn scan_at(&mut self, event: ScanEvent, now: u64) -> (action: Action) {
        self.matrix.scan_at(event, now)
    }

    fn wait_for_key(&mut self) -> (action: Option<Action>) {
        let action = self.matrix.wait_for_key();
        proof {
            let now = choose|now: u64|
                (self.matrix.model(), action) == #[trigger] old(self).matrix.model().wait_step(now);
            assert((self.model(), action) == old(self).model().wait_step(now));
        }
        action
    }

    fn scan(&mut self, event: ScanEvent) -> (action: Action) {
        let action = self.matrix.scan(event);
        proof {
            let now = choose|now: u64|
                (self.matrix.model(), action) == #[trigger] old(self).matrix.model().scan_step(
                    event,
                    now,
                );
            assert((self.model(), action) == old(self).model().scan_step(event, now));
        }
        action
    }

    fn get_key_state(&mut self, row: usize, col: usize) -> (state: Result<KeyState, MatrixError>) {
        match Self::window_cell(row, col) {
            Some((r, c)) => self.matrix.get_key_state(r, c),
            None => Err(MatrixError::OutOfRange),
        }
    }

    fn update_key_state<F: FnOnce(&mut KeyState)>(&mut self, row: usize, col: usize, f: F) -> (done:
        Result<(), MatrixError>) {
        match Self::window_cell(row, col) {
            Some((r, c)) => self.matrix.update_key_state(r, c, f),
            None => Err(MatrixError::OutOfRange),
        }
    }
}

} // verus!
