use vstd::prelude::*;

verus! {

/// Number of discrete velocities of the D2Q9 stencil.
pub const DIRECTIONS: usize = 9;

/// Direction `k` (in `0..9`) is stored in slot `(k / 3, k % 3)` of a cell's
/// 3x3 block and moves by `(dr, dc) = (k / 3 - 1, k % 3 - 1)`.
pub open spec fn dr_of(k: int) -> int {
    k / 3 - 1
}

pub open spec fn dc_of(k: int) -> int {
    k % 3 - 1
}

/// The D2Q9 population weight `C(dr, dc)` in units of 1/36: 1/36 at the
/// corners, 1/9 on the axes, 4/9 at rest.
pub open spec fn weight_36ths(dr: int, dc: int) -> int {
    if dr == 0 && dc == 0 {
        16
    } else if dr == 0 || dc == 0 {
        4
    } else {
        1
    }
}

/// The offsets `(dr, dc)` of direction `k`.
pub fn offsets(k: usize) -> (r: (i32, i32))
    requires
        k < DIRECTIONS,
    ensures
        r.0 == dr_of(k as int),
        r.1 == dc_of(k as int),
        -1 <= r.0 <= 1,
        -1 <= r.1 <= 1,
{
    ((k / 3) as i32 - 1, (k % 3) as i32 - 1)
}

/// `C(dr, dc)` of direction `k`, in units of 1/36.
pub fn lattice_weight_36ths(k: usize) -> (w: u32)
    requires
        k < DIRECTIONS,
    ensures
        w == weight_36ths(dr_of(k as int), dc_of(k as int)),
{
    let (dr, dc) = offsets(k);
    if dr == 0 && dc == 0 {
        16
    } else if dr == 0 || dc == 0 {
        4
    } else {
        1
    }
}

} // verus!
