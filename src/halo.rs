use crate::grid::Grid;
use crate::lattice::{dc_of, dr_of, offsets, DIRECTIONS};
use vstd::prelude::*;

verus! {

/// Position of entry `(r, c, k)` in the row-major storage of a tensor with
/// `col` columns and `depth` entries per cell.
pub open spec fn flat_index(col: int, depth: int, r: int, c: int, k: int) -> int {
    (r * col + c) * depth + k
}

proof fn lemma_compose(row: int, col: int, depth: int, r: int, c: int, k: int)
    requires
        0 <= r < row,
        0 <= c < col,
        0 <= k < depth,
    ensures
        0 <= flat_index(col, depth, r, c, k) < row * col * depth,
        0 <= r * col,
        r * col + c <= (r * col + c) * depth,
        flat_index(col, depth, r, c, k) / depth / col == r,
        (flat_index(col, depth, r, c, k) / depth) % col == c,
        flat_index(col, depth, r, c, k) % depth == k,
{
    let q = r * col + c;
    let j = q * depth + k;
    assert(0 <= q) by (nonlinear_arith)
        requires
            0 <= r,
            0 <= c,
            q == r * col + c,
            0 < col,
    ;
    assert(0 <= j) by (nonlinear_arith)
        requires
            0 <= q,
            0 <= k,
            j == q * depth + k,
            0 < depth,
    ;
    assert(0 <= r * col) by (nonlinear_arith)
        requires
            0 <= r,
            0 < col,
    ;
    assert(q <= q * depth) by (nonlinear_arith)
        requires
            0 <= q,
            1 <= depth,
    ;
    assert((r + 1) * col <= row * col) by (nonlinear_arith)
        requires
            r + 1 <= row,
            0 < col,
    ;
    assert(q < row * col) by (nonlinear_arith)
        requires
            q == r * col + c,
            (r + 1) * col <= row * col,
            c < col,
    ;
    assert((q + 1) * depth <= row * col * depth) by (nonlinear_arith)
        requires
            q + 1 <= row * col,
            0 < depth,
    ;
    assert(j < row * col * depth) by (nonlinear_arith)
        requires
            j == q * depth + k,
            (q + 1) * depth <= row * col * depth,
            k < depth,
    ;
    vstd::arithmetic::div_mod::lemma_fundamental_div_mod_converse(j, depth, q, k);
    vstd::arithmetic::div_mod::lemma_fundamental_div_mod_converse(q, col, r, c);
}

proof fn lemma_decompose(row: int, col: int, depth: int, j: int)
    requires
        0 <= j < row * col * depth,
        0 < col,
        0 < depth,
    ensures
        0 <= j / depth / col < row,
        0 <= (j / depth) % col < col,
        0 <= j % depth < depth,
        flat_index(col, depth, j / depth / col, (j / depth) % col, j % depth) == j,
{
    let q = j / depth;
    let r = q / col;
    let c = q % col;
    let k = j % depth;
    vstd::arithmetic::div_mod::lemma_fundamental_div_mod(j, depth);
    vstd::arithmetic::div_mod::lemma_fundamental_div_mod(q, col);
    vstd::arithmetic::div_mod::lemma_mod_bound(j, depth);
    vstd::arithmetic::div_mod::lemma_mod_bound(q, col);
    vstd::arithmetic::div_mod::lemma_div_pos_is_pos(j, depth);
    vstd::arithmetic::div_mod::lemma_div_pos_is_pos(q, col);
    assert(q < row * col) by (nonlinear_arith)
        requires
            j == depth * q + k,
            0 <= k,
            j < row * col * depth,
            0 < depth,
    ;
    assert(r < row) by (nonlinear_arith)
        requires
            q == col * r + c,
            0 <= c,
            q < row * col,
            0 < col,
    ;
    assert(flat_index(col, depth, r, c, k) == j) by (nonlinear_arith)
        requires
            j == depth * q + k,
            q == col * r + c,
    ;
}

/// A tensor of `depth` entries per cell over a grid whose halo holds one
/// sentinel value (`exterior`) for the whole life of the tensor: every way
/// of changing it writes interior cells only.
pub struct HaloTensor<T> {
    grid: Grid,
    depth: usize,
    exterior: T,
    data: Vec<T>,
}

impl<T> HaloTensor<T> {
    pub closed spec fn spec_grid(self) -> Grid {
        self.grid
    }

    pub closed spec fn spec_depth(self) -> int {
        self.depth as int
    }

    pub closed spec fn spec_exterior(self) -> T {
        self.exterior
    }

    /// Entry `k` of cell `(r, c)`.
    pub closed spec fn at(self, r: int, c: int, k: int) -> T {
        self.data@[flat_index(self.grid.col as int, self.depth as int, r, c, k)]
    }

    pub open spec fn in_range(self, r: int, c: int, k: int) -> bool {
        self.spec_grid().in_bounds(r, c) && 0 <= k < self.spec_depth()
    }

    /// Every halo entry holds the sentinel.
    pub open spec fn halo_intact(self) -> bool {
        forall|r: int, c: int, k: int|
            #![trigger self.at(r, c, k)]
            self.in_range(r, c, k) && !self.spec_grid().in_interior(r, c) ==> self.at(r, c, k)
                == self.spec_exterior()
    }

    #[verifier::type_invariant]
    spec fn inv(self) -> bool {
        &&& self.grid.wf()
        &&& self.depth >= 1
        &&& self.data@.len() == self.grid.row * self.grid.col * self.depth
        &&& self.halo_intact()
    }
}

impl<T: Copy> HaloTensor<T> {
    /// A tensor over `grid` whose interior entries are `interior` and whose
    /// halo entries are `exterior`.
    pub fn new(grid: Grid, depth: usize, exterior: T, interior: T) -> (t: Self)
        requires
            grid.wf(),
            depth >= 1,
            grid.row * grid.col * depth <= usize::MAX,
        ensures
            t.spec_grid() == grid,
            t.spec_depth() == depth,
            t.spec_exterior() == exterior,
            t.halo_intact(),
            forall|r: int, c: int, k: int|
                #![trigger t.at(r, c, k)]
                t.in_range(r, c, k) ==> t.at(r, c, k) == if grid.in_interior(r, c) {
                    interior
                } else {
                    exterior
                },
    {
        assert(grid.row * grid.col <= grid.row * grid.col * depth) by (nonlinear_arith)
            requires
                depth >= 1,
        ;
        let len = grid.row * grid.col * depth;
        let mut data: Vec<T> = Vec::new();
        let mut i: usize = 0;
        while i < len
            invariant
                0 <= i <= len,
                len == grid.row * grid.col * depth,
                grid.wf(),
                depth >= 1,
                data@.len() == i,
                forall|j: int|
                    0 <= j < i ==> #[trigger] data@[j] == if grid.in_interior(
                        j / depth as int / grid.col as int,
                        (j / depth as int) % grid.col as int,
                    ) {
                        interior
                    } else {
                        exterior
                    },
            decreases len - i,
        {
            assert(grid.col > 0) by (nonlinear_arith)
                requires
                    i < grid.row * grid.col * depth,
                    i >= 0,
            ;
            let (r, c, _k) = split_index(grid.col, depth, i);
            proof {
                lemma_decompose(grid.row as int, grid.col as int, depth as int, i as int);
            }
            if grid.interior_contains(r, c) {
                data.push(interior);
            } else {
                data.push(exterior);
            }
            i = i + 1;
        }
        assert forall|r: int, c: int, k: int|
            #![trigger data@[flat_index(grid.col as int, depth as int, r, c, k)]]
            grid.in_bounds(r, c) && 0 <= k < depth && !grid.in_interior(r, c) implies data@[flat_index(
                grid.col as int,
                depth as int,
                r,
                c,
                k,
            )] == exterior by {
            lemma_compose(grid.row as int, grid.col as int, depth as int, r, c, k);
        }
        let t = HaloTensor { grid, depth, exterior, data };
        assert forall|r: int, c: int, k: int| #[trigger]
            t.in_range(r, c, k) implies t.at(r, c, k) == if grid.in_interior(r, c) {
                interior
            } else {
                exterior
            } by {
            lemma_compose(grid.row as int, grid.col as int, depth as int, r, c, k);
        }
        t
    }

    pub fn grid(&self) -> (g: Grid)
        ensures
            g == self.spec_grid(),
            g.wf(),
    {
        proof {
            use_type_invariant(self);
        }
        self.grid
    }

    pub fn depth(&self) -> (d: usize)
        ensures
            d == self.spec_depth(),
            d >= 1,
    {
        proof {
            use_type_invariant(self);
        }
        self.depth
    }

    /// The sentinel held by every halo entry.
    pub fn exterior(&self) -> (e: T)
        ensures
            e == self.spec_exterior(),
            self.halo_intact(),
    {
        proof {
            use_type_invariant(self);
        }
        self.exterior
    }

    /// Entry `k` of cell `(r, c)`.
    pub fn get(&self, r: usize, c: usize, k: usize) -> (v: T)
        requires
            self.in_range(r as int, c as int, k as int),
        ensures
            v == self.at(r as int, c as int, k as int),
    {
        let len = self.data.len();
        proof {
            use_type_invariant(self);
            lemma_compose(
                self.grid.row as int,
                self.grid.col as int,
                self.depth as int,
                r as int,
                c as int,
                k as int,
            );
        }
        let i = (r * self.grid.col + c) * self.depth + k;
        assert(i < len);
        self.data[i]
    }

    /// Replaces every interior entry `x` of cell `(r, c)`, slot `k`, by
    /// `f(r, c, k, x)`; the halo is left as it is.
    pub fn map_interior<F: Fn(usize, usize, usize, T) -> T>(&mut self, f: F)
        requires
            forall|r: usize, c: usize, k: usize, x: T| #[trigger] f.requires((r, c, k, x)),
        ensures
            final(self).spec_grid() == old(self).spec_grid(),
            final(self).spec_depth() == old(self).spec_depth(),
            final(self).spec_exterior() == old(self).spec_exterior(),
            final(self).halo_intact(),
            forall|r: int, c: int, k: int|
                #![trigger final(self).at(r, c, k)]
                old(self).in_range(r, c, k) ==> if old(self).spec_grid().in_interior(r, c) {
                    f.ensures(
                        (r as usize, c as usize, k as usize, old(self).at(r, c, k)),
                        final(self).at(r, c, k),
                    )
                } else {
                    final(self).at(r, c, k) == old(self).at(r, c, k)
                },
    {
        proof {
            use_type_invariant(&*self);
        }
        let grid = self.grid;
        let depth = self.depth;
        let len = self.data.len();
        let mut out: Vec<T> = Vec::new();
        let mut i: usize = 0;
        while i < len
            invariant
                0 <= i <= len,
                len == self.data@.len(),
                len == grid.row * grid.col * depth,
                grid == self.grid,
                depth == self.depth,
                depth >= 1,
                grid.wf(),
                forall|r: usize, c: usize, k: usize, x: T| #[trigger] f.requires((r, c, k, x)),
                out@.len() == i,
                forall|j: int|
                    0 <= j < i ==> {
                        let (r, c, k) = cell_of(grid.col as int, depth as int, j);
                        if grid.in_interior(r, c) {
                            f.ensures(
                                (r as usize, c as usize, k as usize, self.data@[j]),
                                #[trigger] out@[j],
                            )
                        } else {
                            out@[j] == self.data@[j]
                        }
                    },
            decreases len - i,
        {
            assert(grid.col > 0) by (nonlinear_arith)
                requires
                    i < grid.row * grid.col * depth,
                    i >= 0,
            ;
            let (r, c, k) = split_index(grid.col, depth, i);
            proof {
                lemma_decompose(grid.row as int, grid.col as int, depth as int, i as int);
            }
            let x = self.data[i];
            if grid.interior_contains(r, c) {
                let y = f(r, c, k, x);
                out.push(y);
            } else {
                out.push(x);
            }
            i = i + 1;
        }
        proof {
            assert forall|r: int, c: int, k: int|
                #![trigger out@[flat_index(grid.col as int, depth as int, r, c, k)]]
                grid.in_bounds(r, c) && 0 <= k < depth implies {
                let j = flat_index(grid.col as int, depth as int, r, c, k);
                &&& 0 <= j < len
                &&& cell_of(grid.col as int, depth as int, j) == (r, c, k)
                &&& (!grid.in_interior(r, c) ==> out@[j] == self.exterior)
            } by {
                lemma_compose(grid.row as int, grid.col as int, depth as int, r, c, k);
                let j = flat_index(grid.col as int, depth as int, r, c, k);
                if !grid.in_interior(r, c) {
                    assert(out@[j] == self.data@[j]);
                    assert(self.at(r, c, k) == self.exterior);
                }
            }
        }
        self.data = out;
    }

    /// Sets every interior entry to `v`; the halo is left as it is.
    pub fn fill_interior(&mut self, v: T)
        ensures
            final(self).spec_grid() == old(self).spec_grid(),
            final(self).spec_depth() == old(self).spec_depth(),
            final(self).spec_exterior() == old(self).spec_exterior(),
            final(self).halo_intact(),
            forall|r: int, c: int, k: int|
                #![trigger final(self).at(r, c, k)]
                old(self).in_range(r, c, k) ==> final(self).at(r, c, k) == if old(
                    self,
                ).spec_grid().in_interior(r, c) {
                    v
                } else {
                    old(self).at(r, c, k)
                },
    {
        let constant = |_r: usize, _c: usize, _k: usize, _x: T| -> (y: T)
            ensures
                y == v,
            { v };
        self.map_interior(constant);
    }

    /// Streams from `prev`: replaces every interior entry `x` of cell
    /// `(r, c)`, direction `k`, by `f(r, c, k, x, p)`, where `p` is the entry
    /// of direction `k` that `prev` holds at the upstream cell
    /// `(r - dr, c - dc)`. The halo is left as it is, and every cell read
    /// lies in the interior of `prev` (see `lemma_upstream_in_producer_interior`).
    pub fn map_from_neighbors<F: Fn(usize, usize, usize, T, T) -> T>(
        &mut self,
        prev: &HaloTensor<T>,
        f: F,
    )
        requires
            old(self).spec_depth() == DIRECTIONS,
            prev.spec_depth() == DIRECTIONS,
            old(self).spec_grid().same_extent(prev.spec_grid()),
            old(self).spec_grid().margin >= prev.spec_grid().margin + 1,
            forall|r: usize, c: usize, k: usize, x: T, p: T| #[trigger] f.requires((r, c, k, x, p)),
        ensures
            final(self).spec_grid() == old(self).spec_grid(),
            final(self).spec_depth() == old(self).spec_depth(),
            final(self).spec_exterior() == old(self).spec_exterior(),
            final(self).halo_intact(),
            forall|r: int, c: int, k: int|
                #![trigger final(self).at(r, c, k)]
                old(self).in_range(r, c, k) ==> if old(self).spec_grid().in_interior(r, c) {
                    f.ensures(
                        (
                            r as usize,
                            c as usize,
                            k as usize,
                            old(self).at(r, c, k),
                            prev.at(r - dr_of(k), c - dc_of(k), k),
                        ),
                        final(self).at(r, c, k),
                    )
                } else {
                    final(self).at(r, c, k) == old(self).at(r, c, k)
                },
    {
        proof {
            use_type_invariant(&*self);
            use_type_invariant(prev);
        }
        let grid = self.grid;
        let depth = self.depth;
        let len = self.data.len();
        let mut out: Vec<T> = Vec::new();
        let mut i: usize = 0;
        while i < len
            invariant
                0 <= i <= len,
                len == self.data@.len(),
                len == grid.row * grid.col * depth,
                grid == self.grid,
                depth == self.depth,
                depth == DIRECTIONS,
                grid.wf(),
                grid.same_extent(prev.spec_grid()),
                grid.margin >= prev.spec_grid().margin + 1,
                prev.spec_depth() == DIRECTIONS,
                forall|r: usize, c: usize, k: usize, x: T, p: T| #[trigger] f.requires((r, c, k, x, p)),
                out@.len() == i,
                forall|j: int|
                    0 <= j < i ==> {
                        let (r, c, k) = cell_of(grid.col as int, depth as int, j);
                        if grid.in_interior(r, c) {
                            f.ensures(
                                (
                                    r as usize,
                                    c as usize,
                                    k as usize,
                                    self.data@[j],
                                    prev.at(r - dr_of(k), c - dc_of(k), k),
                                ),
                                #[trigger] out@[j],
                            )
                        } else {
                            out@[j] == self.data@[j]
                        }
                    },
            decreases len - i,
        {
            assert(grid.col > 0) by (nonlinear_arith)
                requires
                    i < grid.row * grid.col * depth,
                    i >= 0,
            ;
            let (r, c, k) = split_index(grid.col, depth, i);
            proof {
                lemma_decompose(grid.row as int, grid.col as int, depth as int, i as int);
            }
            let x = self.data[i];
            if grid.interior_contains(r, c) {
                let (dr, dc) = offsets(k);
                proof {
                    lemma_upstream_in_producer_interior(grid, prev.spec_grid(), r as int, c as int, k as int);
                }
                let sr = upstream(r, dr);
                let sc = upstream(c, dc);
                let p = prev.get(sr, sc, k);
                let y = f(r, c, k, x, p);
                out.push(y);
            } else {
                out.push(x);
            }
            i = i + 1;
        }
        proof {
            assert forall|r: int, c: int, k: int|
                #![trigger out@[flat_index(grid.col as int, depth as int, r, c, k)]]
                grid.in_bounds(r, c) && 0 <= k < depth implies {
                let j = flat_index(grid.col as int, depth as int, r, c, k);
                &&& 0 <= j < len
                &&& cell_of(grid.col as int, depth as int, j) == (r, c, k)
                &&& (!grid.in_interior(r, c) ==> out@[j] == self.exterior)
            } by {
                lemma_compose(grid.row as int, grid.col as int, depth as int, r, c, k);
                let j = flat_index(grid.col as int, depth as int, r, c, k);
                if !grid.in_interior(r, c) {
                    assert(out@[j] == self.data@[j]);
                    assert(self.at(r, c, k) == self.exterior);
                }
            }
        }
        self.data = out;
    }
}

/// `x - d`, the coordinate upstream of `x` along an offset `d` in `{-1, 0, 1}`.
fn upstream(x: usize, d: i32) -> (y: usize)
    requires
        -1 <= d <= 1,
        0 <= x - d <= usize::MAX,
    ensures
        y == x - d,
{
    if d == 1 {
        x - 1
    } else if d == -1 {
        x + 1
    } else {
        x
    }
}

/// The margin rule: when a consumer's margin exceeds its producer's, the
/// upstream cell `(r - dr, c - dc)` of any interior cell of the consumer
/// lies in the interior of the producer, for every direction.
pub proof fn lemma_upstream_in_producer_interior(out: Grid, prev: Grid, r: int, c: int, k: int)
    requires
        out.same_extent(prev),
        out.margin >= prev.margin + 1,
        out.in_interior(r, c),
        0 <= k < DIRECTIONS,
    ensures
        prev.in_interior(r - dr_of(k), c - dc_of(k)),
{
}

/// The cell and slot of storage position `j`.
pub open spec fn cell_of(col: int, depth: int, j: int) -> (int, int, int) {
    (j / depth / col, (j / depth) % col, j % depth)
}

/// The cell and slot of storage position `i`.
fn split_index(col: usize, depth: usize, i: usize) -> (rck: (usize, usize, usize))
    requires
        col > 0,
        depth > 0,
    ensures
        rck.0 == i as int / depth as int / col as int,
        rck.1 == (i as int / depth as int) % col as int,
        rck.2 == i as int % depth as int,
{
    let q = i / depth;
    (q / col, q % col, i % depth)
}

} // verus!
