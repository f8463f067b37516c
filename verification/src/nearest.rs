use vstd::prelude::*;
use crate::navgrid::{in_grid, walkable, NavGrid, NAV_GRID_DIM};

verus! {

/// Farthest ring searched around a blocked cell.
pub const MAX_SEARCH_RING: i64 = 7;

/// The cell at offset `(dx, dy)` from `(gx, gy)` lies on ring `r` (the square border at
/// Chebyshev distance `r`, for `1 <= r <= 7`) and is walkable.
pub open spec fn ring_hit(cells: Seq<bool>, gx: int, gy: int, r: int, dy: int, dx: int) -> bool {
    &&& 1 <= r <= MAX_SEARCH_RING
    &&& -r <= dy <= r
    &&& -r <= dx <= r
    &&& (dx == r || dx == -r || dy == r || dy == -r)
    &&& walkable(cells, gx + dx, gy + dy)
}

/// Search order: ring by ring, then row by row, then column by column.
pub open spec fn search_before(r1: int, dy1: int, dx1: int, r2: int, dy2: int, dx2: int) -> bool {
    r1 < r2 || (r1 == r2 && (dy1 < dy2 || (dy1 == dy2 && dx1 < dx2)))
}

/// No walkable ring cell comes before `(r, dy, dx)` in search order.
pub open spec fn no_hit_before(cells: Seq<bool>, gx: int, gy: int, r: int, dy: int, dx: int) -> bool {
    forall|r2: int, dy2: int, dx2: int|
        #![trigger ring_hit(cells, gx, gy, r2, dy2, dx2)]
        search_before(r2, dy2, dx2, r, dy, dx) ==> !ring_hit(cells, gx, gy, r2, dy2, dx2)
}

/// `res` is what the nearest-walkable search returns for `(gx, gy)`: the cell itself when it is
/// walkable, else the first walkable ring cell in search order, else `None`.
pub open spec fn is_nearest_walkable(
    cells: Seq<bool>,
    gx: int,
    gy: int,
    res: Option<(usize, usize)>,
) -> bool {
    if walkable(cells, gx, gy) {
        res == Some((gx as usize, gy as usize))
    } else {
        match res {
            Some(c) => exists|r: int, dy: int, dx: int|
                #![trigger ring_hit(cells, gx, gy, r, dy, dx)]
                ring_hit(cells, gx, gy, r, dy, dx) && c.0 == gx + dx && c.1 == gy + dy
                    && no_hit_before(cells, gx, gy, r, dy, dx),
            None => no_hit_before(cells, gx, gy, MAX_SEARCH_RING + 1, 0, 0),
        }
    }
}

/// `gx + d` when it fits in a `usize`.
fn offset(gx: usize, d: i64) -> (res: Option<usize>)
    requires
        -8 <= d <= 8,
    ensures
        res matches Some(v) ==> v as int == gx + d,
        res is None ==> gx + d < 0 || gx + d > usize::MAX,
{
    if d >= 0 {
        gx.checked_add(d as usize)
    } else {
        let m = (0 - d) as usize;
        if gx >= m {
            Some(gx - m)
        } else {
            None
        }
    }
}

impl NavGrid {
    /// The cell itself when it is walkable; otherwise the first walkable cell found on the
    /// rings of distance 1 to 7 around it, in search order; `None` when there is none.
    pub fn find_nearest_walkable(&self, gx: usize, gy: usize) -> (res: Option<(usize, usize)>)
        requires
            self.wf(),
        ensures
            is_nearest_walkable(self.cells(), gx as int, gy as int, res),
    {
        let ghost cells = self.cells();
        if !self.is_blocked(gx, gy) {
            return Some((gx, gy));
        }
        let mut r: i64 = 1;
        while r <= MAX_SEARCH_RING
            invariant
                1 <= r <= MAX_SEARCH_RING + 1,
                self.wf(),
                cells == self.cells(),
                !walkable(cells, gx as int, gy as int),
                no_hit_before(cells, gx as int, gy as int, r as int, -r as int, -r as int),
            decreases MAX_SEARCH_RING + 1 - r,
        {
            let mut dy: i64 = -r;
            while dy <= r
                invariant
                    1 <= r <= MAX_SEARCH_RING,
                    -r <= dy <= r + 1,
                    self.wf(),
                    cells == self.cells(),
                    !walkable(cells, gx as int, gy as int),
                    no_hit_before(cells, gx as int, gy as int, r as int, dy as int, -r as int),
                decreases r + 1 - dy,
            {
                let mut dx: i64 = -r;
                while dx <= r
                    invariant
                        1 <= r <= MAX_SEARCH_RING,
                        -r <= dy <= r,
                        -r <= dx <= r + 1,
                        self.wf(),
                        cells == self.cells(),
                        !walkable(cells, gx as int, gy as int),
                        no_hit_before(cells, gx as int, gy as int, r as int, dy as int, dx as int),
                    decreases r + 1 - dx,
                {
                    if dx == r || dx == -r || dy == r || dy == -r {
                        match (offset(gx, dx), offset(gy, dy)) {
                            (Some(nx), Some(ny)) => {
                                if nx < NAV_GRID_DIM && ny < NAV_GRID_DIM && !self.is_blocked(
                                    nx,
                                    ny,
                                ) {
                                    proof {
                                        assert(ring_hit(
                                            cells,
                                            gx as int,
                                            gy as int,
                                            r as int,
                                            dy as int,
                                            dx as int,
                                        ));
                                    }
                                    return Some((nx, ny));
                                }
                            },
                            _ => {},
                        }
                    }
                    proof {
                        assert(!ring_hit(cells, gx as int, gy as int, r as int, dy as int, dx as int));
                        assert forall|r2: int, dy2: int, dx2: int|
                            #![trigger ring_hit(cells, gx as int, gy as int, r2, dy2, dx2)]
                            search_before(
                                r2,
                                dy2,
                                dx2,
                                r as int,
                                dy as int,
                                dx + 1,
                            ) implies !ring_hit(cells, gx as int, gy as int, r2, dy2, dx2) by {
                            if !(r2 == r && dy2 == dy && dx2 == dx) {
                                assert(search_before(r2, dy2, dx2, r as int, dy as int, dx as int));
                            }
                        }
                    }
                    dx = dx + 1;
                }
                proof {
                    assert forall|r2: int, dy2: int, dx2: int|
                        #![trigger ring_hit(cells, gx as int, gy as int, r2, dy2, dx2)]
                        search_before(r2, dy2, dx2, r as int, dy + 1, -r as int) implies !ring_hit(
                            cells,
                            gx as int,
                            gy as int,
                            r2,
                            dy2,
                            dx2,
                        ) by {
                        if search_before(r2, dy2, dx2, r as int, dy as int, dx as int) {
                        } else {
                            assert(!(1 <= r2 <= MAX_SEARCH_RING && -r2 <= dy2 <= r2 && -r2 <= dx2
                                <= r2));
                        }
                    }
                }
                dy = dy + 1;
            }
            proof {
                assert forall|r2: int, dy2: int, dx2: int|
                    #![trigger ring_hit(cells, gx as int, gy as int, r2, dy2, dx2)]
                    search_before(r2, dy2, dx2, r + 1, -(r + 1), -(r + 1)) implies !ring_hit(
                        cells,
                        gx as int,
                        gy as int,
                        r2,
                        dy2,
                        dx2,
                    ) by {
                    if search_before(r2, dy2, dx2, r as int, dy as int, -r as int) {
                    } else {
                        assert(!(1 <= r2 <= MAX_SEARCH_RING && -r2 <= dy2 <= r2 && -r2 <= dx2
                            <= r2));
                    }
                }
            }
            r = r + 1;
        }
        proof {
            assert forall|r2: int, dy2: int, dx2: int|
                #![trigger ring_hit(cells, gx as int, gy as int, r2, dy2, dx2)]
                search_before(r2, dy2, dx2, MAX_SEARCH_RING + 1, 0, 0) implies !ring_hit(
                    cells,
                    gx as int,
                    gy as int,
                    r2,
                    dy2,
                    dx2,
                ) by {
                if search_before(r2, dy2, dx2, r as int, -r as int, -r as int) {
                } else {
                    assert(!(1 <= r2 <= MAX_SEARCH_RING));
                }
            }
        }
        None
    }
}

} // verus!
