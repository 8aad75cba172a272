//! The constraint-system and region model the scheduler works against:
//! column registration and gate registration at configuration time, and a
//! grid of cells written during one exclusive assignment pass.

use vstd::prelude::*;
use crate::expr::{Column, ColumnKind, Expression};
use crate::gates::Gate;

verus! {

/// The constraint system under configuration: the registered columns and
/// the polynomial identities, each enforced wherever its selector is
/// active.
pub struct ConstraintSystem {
    pub num_fixed: usize,
    pub num_advice: usize,
    pub gates: Vec<Expression>,
}

impl ConstraintSystem {
    /// An empty system with no columns and no gates.
    pub fn new() -> (r: ConstraintSystem)
        ensures
            r.num_fixed == 0,
            r.num_advice == 0,
            r.gates@.len() == 0,
    {
        ConstraintSystem { num_fixed: 0, num_advice: 0, gates: Vec::new() }
    }

    /// Registers a fresh fixed column.
    pub fn fixed_column(&mut self) -> (c: Column)
        requires
            old(self).num_fixed < usize::MAX,
        ensures
            c == (Column { kind: ColumnKind::Fixed, index: old(self).num_fixed }),
            final(self).num_fixed == old(self).num_fixed + 1,
            final(self).num_advice == old(self).num_advice,
            final(self).gates@ == old(self).gates@,
    {
        let c = Column { kind: ColumnKind::Fixed, index: self.num_fixed };
        self.num_fixed = self.num_fixed + 1;
        c
    }

    /// Registers a fresh advice column.
    pub fn advice_column(&mut self) -> (c: Column)
        requires
            old(self).num_advice < usize::MAX,
        ensures
            c == (Column { kind: ColumnKind::Advice, index: old(self).num_advice }),
            final(self).num_advice == old(self).num_advice + 1,
            final(self).num_fixed == old(self).num_fixed,
            final(self).gates@ == old(self).gates@,
    {
        let c = Column { kind: ColumnKind::Advice, index: self.num_advice };
        self.num_advice = self.num_advice + 1;
        c
    }

    /// A query of an advice column at a relative row offset.
    pub fn query_advice(&self, column: Column, rotation: i32) -> (r: Expression)
        ensures
            r == Expression::Query(crate::expr::ColumnQuery { column, rotation }),
    {
        Expression::Query(crate::expr::ColumnQuery { column, rotation })
    }

    /// A query of a fixed column at a relative row offset.
    pub fn query_fixed(&self, column: Column, rotation: i32) -> (r: Expression)
        ensures
            r == Expression::Query(crate::expr::ColumnQuery { column, rotation }),
    {
        Expression::Query(crate::expr::ColumnQuery { column, rotation })
    }

    /// Registers a gate: its polynomial identity is enforced on every row
    /// where its selector is active.
    pub fn create_gate(&mut self, gate: Gate)
        ensures
            final(self).gates@ == old(self).gates@.push(gate.0),
            final(self).num_fixed == old(self).num_fixed,
            final(self).num_advice == old(self).num_advice,
    {
        self.gates.push(gate.0);
    }
}

/// A (column, row) handle, used to wire a cell's value to cells used by
/// other components through copy constraints.
#[derive(Clone, Copy, PartialEq, Eq, Structural, Debug)]
pub struct Cell {
    pub column: Column,
    pub row: usize,
}

/// A contiguous block of rows exclusively owned during one assignment
/// pass: a grid of advice cells and fixed cells, indexed by column, then
/// row.
pub struct Region {
    pub advice: Vec<Vec<u64>>,
    pub fixed: Vec<Vec<u64>>,
}

/// An advice column is present in the region with at least `rows` rows.
pub open spec fn advice_fits(region: Region, c: Column, rows: int) -> bool {
    &&& c.kind is Advice
    &&& c.index < region.advice@.len()
    &&& (region.advice@[c.index as int])@.len() >= rows
}

/// A fixed column is present in the region with at least `rows` rows.
pub open spec fn fixed_fits(region: Region, c: Column, rows: int) -> bool {
    &&& c.kind is Fixed
    &&& c.index < region.fixed@.len()
    &&& (region.fixed@[c.index as int])@.len() >= rows
}

impl Region {
    /// All columns hold one value per row.
    pub open spec fn wf(self, num_advice: int, num_fixed: int, num_rows: int) -> bool {
        &&& self.advice@.len() == num_advice
        &&& self.fixed@.len() == num_fixed
        &&& forall|c: int| 0 <= c < num_advice ==> (#[trigger] self.advice@[c])@.len() == num_rows
        &&& forall|c: int| 0 <= c < num_fixed ==> (#[trigger] self.fixed@[c])@.len() == num_rows
    }

    /// A fresh region of the given shape, all cells zero.
    pub fn new_region(num_advice: usize, num_fixed: usize, num_rows: usize) -> (r: Region)
        ensures
            r.wf(num_advice as int, num_fixed as int, num_rows as int),
    {
        let mut advice: Vec<Vec<u64>> = Vec::new();
        let mut c: usize = 0;
        while c < num_advice
            invariant
                c <= num_advice,
                advice@.len() == c,
                forall|i: int| 0 <= i < c ==> (#[trigger] advice@[i])@.len() == num_rows,
            decreases num_advice - c,
        {
            let mut col: Vec<u64> = Vec::new();
            let mut r: usize = 0;
            while r < num_rows
                invariant
                    r <= num_rows,
                    col@.len() == r,
                decreases num_rows - r,
            {
                col.push(0);
                r = r + 1;
            }
            advice.push(col);
            c = c + 1;
        }
        let mut fixed: Vec<Vec<u64>> = Vec::new();
        let mut c2: usize = 0;
        while c2 < num_fixed
            invariant
                c2 <= num_fixed,
                fixed@.len() == c2,
                forall|i: int| 0 <= i < c2 ==> (#[trigger] fixed@[i])@.len() == num_rows,
            decreases num_fixed - c2,
        {
            let mut col: Vec<u64> = Vec::new();
            let mut r: usize = 0;
            while r < num_rows
                invariant
                    r <= num_rows,
                    col@.len() == r,
                decreases num_rows - r,
            {
                col.push(0);
                r = r + 1;
            }
            fixed.push(col);
            c2 = c2 + 1;
        }
        Region { advice, fixed }
    }

    /// Writes a witness value into an advice cell and returns its handle.
    pub fn assign_advice(&mut self, column: Column, row: usize, value: u64) -> (c: Cell)
        requires
            column.kind is Advice,
            column.index < old(self).advice@.len(),
            row < old(self).advice@[column.index as int]@.len(),
        ensures
            c == (Cell { column, row }),
            final(self).advice@[column.index as int]@ == old(self).advice@[
                column.index as int
            ]@.update(row as int, value),
            final(self).advice@.len() == old(self).advice@.len(),
            forall|i: int|
                0 <= i < final(self).advice@.len() && i != column.index ==> final(self).advice@[i]
                    == old(self).advice@[i],
            final(self).fixed@ == old(self).fixed@,
            forall|c2: Column, rows: int|
                advice_fits(*old(self), c2, rows) ==> #[trigger] advice_fits(
                    *final(self),
                    c2,
                    rows,
                ),
            forall|c2: Column, rows: int|
                fixed_fits(*old(self), c2, rows) ==> #[trigger] fixed_fits(*final(self), c2, rows),
    {
        self.advice[column.index][row] = value;
        Cell { column, row }
    }

    /// Writes a constant into a fixed cell; activating a selector writes
    /// a one into its column at the anchor row.
    pub fn assign_fixed(&mut self, column: Column, row: usize, value: u64)
        requires
            column.kind is Fixed,
            column.index < old(self).fixed@.len(),
            row < old(self).fixed@[column.index as int]@.len(),
        ensures
            final(self).fixed@[column.index as int]@ == old(self).fixed@[
                column.index as int
            ]@.update(row as int, value),
            final(self).fixed@.len() == old(self).fixed@.len(),
            forall|i: int|
                0 <= i < final(self).fixed@.len() && i != column.index ==> final(self).fixed@[i]
                    == old(self).fixed@[i],
            final(self).advice@ == old(self).advice@,
            forall|c2: Column, rows: int|
                advice_fits(*old(self), c2, rows) ==> #[trigger] advice_fits(
                    *final(self),
                    c2,
                    rows,
                ),
            forall|c2: Column, rows: int|
                fixed_fits(*old(self), c2, rows) ==> #[trigger] fixed_fits(*final(self), c2, rows),
    {
        self.fixed[column.index][row] = value;
    }
}

} // verus!
