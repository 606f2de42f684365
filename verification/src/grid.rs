//! The fixed rectangular lattice of stone base positions.
//!
//! A layout is pure and stateless: it is the pair of positive lattice
//! dimensions, and the row-major enumeration of cells derived from them.
//! Row-major order matters to the rest of the core, because a stone's row
//! index decides how strongly it may be perturbed.

use crate::errors::ConfigError;
use vstd::prelude::*;

verus! {

/// A rectangular lattice of `rows * cols` cells, both dimensions positive.
#[derive(Clone, Copy, Debug, PartialEq, Eq, Structural)]
pub struct GridLayout {
    pub rows: u32,
    pub cols: u32,
}

impl GridLayout {
    /// Both dimensions are positive.
    pub open spec fn wf(self) -> bool {
        self.rows > 0 && self.cols > 0
    }

    /// The `(column, row)` pair of the cell at row-major index `k`.
    pub open spec fn cell_at(self, k: int) -> (u32, u32) {
        ((k % (self.cols as int)) as u32, (k / (self.cols as int)) as u32)
    }

    /// Every cell's `(column, row)` pair, in row-major order: all columns
    /// of row zero first, then all columns of row one, and so on.
    pub fn positions(&self) -> (cells: Vec<(u32, u32)>)
        requires
            self.wf(),
            self.rows * self.cols <= usize::MAX,
        ensures
            cells@.len() == self.rows * self.cols,
            forall|k: int| 0 <= k < cells@.len() ==> cells@[k] == self.cell_at(k),
    {
        let mut cells: Vec<(u32, u32)> = Vec::new();
        let mut row: u32 = 0;
        while row < self.rows
            invariant
                self.wf(),
                row <= self.rows,
                cells@.len() == row * self.cols,
                forall|k: int| 0 <= k < cells@.len() ==> cells@[k] == self.cell_at(k),
            decreases self.rows - row,
        {
            let mut col: u32 = 0;
            while col < self.cols
                invariant
                    self.wf(),
                    row < self.rows,
                    col <= self.cols,
                    cells@.len() == row * self.cols + col,
                    forall|k: int| 0 <= k < cells@.len() ==> cells@[k] == self.cell_at(k),
                decreases self.cols - col,
            {
                proof {
                    vstd::arithmetic::div_mod::lemma_fundamental_div_mod_converse(
                        row * self.cols + col,
                        self.cols as int,
                        row as int,
                        col as int,
                    );
                }
                cells.push((col, row));
                col = col + 1;
            }
            proof {
                assert((row + 1) * self.cols == row * self.cols + self.cols)
                    by (nonlinear_arith);
            }
            row = row + 1;
        }
        cells
    }
}

/// A layout of `rows` by `cols` cells, or the error naming the dimension
/// that was zero. Zero dimensions are a configuration error, never an
/// intentionally empty grid.
pub fn configure(rows: u32, cols: u32) -> (layout: Result<GridLayout, ConfigError>)
    ensures
        rows > 0 && cols > 0 ==> layout == Ok::<GridLayout, ConfigError>(GridLayout { rows, cols }),
        rows == 0 ==> layout == Err::<GridLayout, ConfigError>(ConfigError::ZeroRows),
        rows > 0 && cols == 0 ==> layout == Err::<GridLayout, ConfigError>(ConfigError::ZeroColumns),
{
    if rows == 0 {
        Err(ConfigError::ZeroRows)
    } else if cols == 0 {
        Err(ConfigError::ZeroColumns)
    } else {
        Ok(GridLayout { rows, cols })
    }
}

} // verus!
