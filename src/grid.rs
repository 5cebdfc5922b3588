use vstd::prelude::*;

verus! {

/// Why an operator refused its arguments.
#[derive(Debug, Clone, Copy, PartialEq, Eq, Structural)]
pub enum LbmError {
    /// The grid extents of two arguments disagree.
    ShapeMismatch,
    /// The margins of the arguments break the producer/consumer relation,
    /// or a margin is too wide for its grid.
    MarginMismatch,
}

/// A `row x col` grid whose interior is `[margin, row - margin) x [margin, col - margin)`.
/// Everything outside the interior is halo.
#[derive(Debug, Clone, Copy, PartialEq, Eq, Structural)]
pub struct Grid {
    pub row: usize,
    pub col: usize,
    pub margin: usize,
}

impl Grid {
    /// The margin fits the grid: the interior is a (possibly empty) rectangle.
    pub open spec fn wf(self) -> bool {
        2 * self.margin <= self.row && 2 * self.margin <= self.col
    }

    pub open spec fn in_bounds(self, r: int, c: int) -> bool {
        0 <= r < self.row && 0 <= c < self.col
    }

    pub open spec fn in_interior(self, r: int, c: int) -> bool {
        &&& self.margin <= r < self.row - self.margin
        &&& self.margin <= c < self.col - self.margin
    }

    pub open spec fn same_extent(self, other: Grid) -> bool {
        self.row == other.row && self.col == other.col
    }

    /// A grid of the given extents and margin; a margin wider than half of
    /// either extent leaves no room for an interior and is refused.
    pub fn new(row: usize, col: usize, margin: usize) -> (r: Result<Grid, LbmError>)
        ensures
            match r {
                Ok(g) => g == (Grid { row, col, margin }) && g.wf(),
                Err(e) => e == LbmError::MarginMismatch && !(Grid { row, col, margin }).wf(),
            },
    {
        if margin <= row / 2 && margin <= col / 2 {
            Ok(Grid { row, col, margin })
        } else {
            Err(LbmError::MarginMismatch)
        }
    }

    /// A grid without halo: every cell is interior.
    pub fn whole(row: usize, col: usize) -> (r: Grid)
        ensures
            r == (Grid { row, col, margin: 0 }),
            r.wf(),
    {
        Grid { row, col, margin: 0 }
    }

    pub fn interior_contains(&self, r: usize, c: usize) -> (b: bool)
        requires
            self.wf(),
        ensures
            b == self.in_interior(r as int, c as int),
    {
        self.margin <= r && r < self.row - self.margin && self.margin <= c && c < self.col
            - self.margin
    }
    /// Fails with `ShapeMismatch` unless a `rows x cols` matrix covers exactly this grid.
    pub fn check_extent(&self, rows: usize, cols: usize) -> (r: Result<(), LbmError>)
        ensures
            r is Ok <==> (rows == self.row && cols == self.col),
            r is Err ==> r == Err::<(), LbmError>(LbmError::ShapeMismatch),
    {
        if rows == self.row && cols == self.col {
            Ok(())
        } else {
            Err(LbmError::ShapeMismatch)
        }
    }
}

/// The margin relation between a field written by streaming (`out`), its
/// weight and the field it reads (`prev`). `exact` asks for
/// `out.margin == prev.margin + 1` (a collided producer); otherwise
/// `out.margin >= prev.margin + 1` suffices (a seeded producer without halo).
pub open spec fn stream_margins_fit(out: Grid, weight: Grid, prev: Grid, exact: bool) -> bool {
    &&& out.margin == weight.margin
    &&& if exact {
        out.margin == prev.margin + 1
    } else {
        out.margin >= prev.margin + 1
    }
}

/// Checks the arguments of a streaming step: all three grids share their
/// extents (else `ShapeMismatch`), then their margins fit (else `MarginMismatch`).
pub fn check_stream(out: &Grid, weight: &Grid, prev: &Grid, exact: bool) -> (r: Result<(), LbmError>)
    ensures
        r == if !(out.same_extent(*weight) && out.same_extent(*prev)) {
            Err(LbmError::ShapeMismatch)
        } else if !stream_margins_fit(*out, *weight, *prev, exact) {
            Err(LbmError::MarginMismatch)
        } else {
            Ok(())
        },
{
    if out.row != weight.row || out.col != weight.col || out.row != prev.row || out.col != prev.col {
        return Err(LbmError::ShapeMismatch);
    }
    if out.margin != weight.margin || prev.margin >= out.margin {
        return Err(LbmError::MarginMismatch);
    }
    if exact && out.margin != prev.margin + 1 {
        return Err(LbmError::MarginMismatch);
    }
    Ok(())
}

/// Checks the arguments of a collision: the collided field, the streamed
/// field it relaxes and the colliding weight share extents (else
/// `ShapeMismatch`) and one margin (else `MarginMismatch`).
pub fn check_collide(out: &Grid, streamed: &Grid, weight: &Grid) -> (r: Result<(), LbmError>)
    ensures
        r == if !(out.same_extent(*streamed) && out.same_extent(*weight)) {
            Err(LbmError::ShapeMismatch)
        } else if !(out.margin == streamed.margin && out.margin == weight.margin) {
            Err(LbmError::MarginMismatch)
        } else {
            Ok(())
        },
{
    if out.row != streamed.row || out.col != streamed.col || out.row != weight.row || out.col
        != weight.col {
        return Err(LbmError::ShapeMismatch);
    }
    if out.margin != streamed.margin || out.margin != weight.margin {
        return Err(LbmError::MarginMismatch);
    }
    Ok(())
}

/// Checks the arguments of the streaming-weight gradient: the weight, the
/// field it produced (`now`), the collided field that field read (`prev`)
/// and the two `rows x cols` target matrices share extents (else
/// `ShapeMismatch`); `now` has the weight's margin and `prev` one less
/// (else `MarginMismatch`).
pub fn check_propagate(
    weight: &Grid,
    now: &Grid,
    prev: &Grid,
    target_vert: (usize, usize),
    target_hori: (usize, usize),
) -> (r: Result<(), LbmError>)
    ensures
        r == if !(weight.same_extent(*now) && weight.same_extent(*prev) && target_vert == (
        weight.row, weight.col) && target_hori == (weight.row, weight.col)) {
            Err(LbmError::ShapeMismatch)
        } else if !(weight.margin == now.margin && weight.margin == prev.margin + 1) {
            Err(LbmError::MarginMismatch)
        } else {
            Ok(())
        },
{
    if weight.row != now.row || weight.col != now.col || weight.row != prev.row || weight.col
        != prev.col {
        return Err(LbmError::ShapeMismatch);
    }
    if target_vert.0 != weight.row || target_vert.1 != weight.col || target_hori.0 != weight.row
        || target_hori.1 != weight.col {
        return Err(LbmError::ShapeMismatch);
    }
    if weight.margin != now.margin || prev.margin >= weight.margin || weight.margin != prev.margin
        + 1 {
        return Err(LbmError::MarginMismatch);
    }
    Ok(())
}

} // verus!
