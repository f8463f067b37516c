use vstd::prelude::*;

verus! {

/// Number of cells along each side of the navigation grid.
pub const NAV_GRID_DIM: usize = 64;

/// Number of cells of the navigation grid.
pub const NAV_CELLS: usize = 4096;

/// Cost of a horizontal or vertical step, in tenths of a world unit (a cell is 50 units wide).
pub const STRAIGHT_STEP_COST: u32 = 500;

/// Cost of a diagonal step, in tenths of a world unit (50 * 1.414).
pub const DIAGONAL_STEP_COST: u32 = 707;

/// Marks a cell whose best known cost is still unknown.
const UNREACHED: u32 = 0xFFFF_FFFF;

/// A cell coordinate that lies on the grid.
pub open spec fn in_grid(x: int, y: int) -> bool {
    0 <= x < NAV_GRID_DIM && 0 <= y < NAV_GRID_DIM
}

/// Row-major position of a cell in the grid's storage.
pub open spec fn cell_index(x: int, y: int) -> int {
    y * 64 + x
}

/// A cell that lies on the grid and is not blocked.
pub open spec fn walkable(cells: Seq<bool>, x: int, y: int) -> bool {
    in_grid(x, y) && !cells[cell_index(x, y)]
}

/// One move of a unit: to one of the eight neighbouring cells, onto a walkable cell, and,
/// on a diagonal, only when both cells beside the diagonal are walkable (no corner cutting).
pub open spec fn valid_step(cells: Seq<bool>, ax: int, ay: int, cx: int, cy: int) -> bool {
    &&& -1 <= cx - ax <= 1
    &&& -1 <= cy - ay <= 1
    &&& (ax != cx || ay != cy)
    &&& walkable(cells, cx, cy)
    &&& (ax != cx && ay != cy) ==> (walkable(cells, ax, cy) && walkable(cells, cx, ay))
}

/// The move from `path[k]` to `path[k + 1]` is a valid step.
pub open spec fn step_at(cells: Seq<bool>, path: Seq<(usize, usize)>, k: int) -> bool {
    valid_step(
        cells,
        path[k].0 as int,
        path[k].1 as int,
        path[k + 1].0 as int,
        path[k + 1].1 as int,
    )
}

/// `path` walks from `start` to `goal` over walkable cells by valid steps.
pub open spec fn is_cell_path(
    cells: Seq<bool>,
    path: Seq<(usize, usize)>,
    start: (usize, usize),
    goal: (usize, usize),
) -> bool {
    &&& path.len() >= 1
    &&& path[0] == start
    &&& path[path.len() - 1] == goal
    &&& walkable(cells, start.0 as int, start.1 as int)
    &&& forall|k: int| 0 <= k < path.len() - 1 ==> #[trigger] step_at(cells, path, k)
}

/// Some path leads from `start` to `goal`.
pub open spec fn reachable(cells: Seq<bool>, start: (usize, usize), goal: (usize, usize)) -> bool {
    exists|path: Seq<(usize, usize)>| is_cell_path(cells, path, start, goal)
}

/// Column offset of the neighbour in direction `d` (in the order the search tries them).
pub open spec fn dir_dx(d: int) -> int {
    if d == 0 || d == 4 || d == 5 {
        1
    } else if d == 1 || d == 6 || d == 7 {
        -1
    } else {
        0
    }
}

/// Row offset of the neighbour in direction `d`.
pub open spec fn dir_dy(d: int) -> int {
    if d == 2 || d == 4 || d == 6 {
        1
    } else if d == 3 || d == 5 || d == 7 {
        -1
    } else {
        0
    }
}

/// The A* navigation grid: one blocked flag per cell.
pub struct NavGrid {
    blocked: Vec<bool>,
}

impl NavGrid {
    /// The grid holds exactly one flag per cell.
    pub closed spec fn wf(&self) -> bool {
        self.blocked@.len() == NAV_CELLS
    }

    /// The blocked flags, row by row.
    pub closed spec fn cells(&self) -> Seq<bool> {
        self.blocked@
    }

    /// A grid with no blocked cell.
    pub fn new() -> (res: NavGrid)
        ensures
            res.wf(),
            res.cells() == Seq::new(NAV_CELLS as nat, |i: int| false),
    {
        let mut blocked: Vec<bool> = Vec::new();
        let mut i: usize = 0;
        while i < NAV_CELLS
            invariant
                i <= NAV_CELLS,
                blocked@ == Seq::new(i as nat, |k: int| false),
            decreases NAV_CELLS - i,
        {
            blocked.push(false);
            i = i + 1;
        }
        NavGrid { blocked }
    }

    /// Unblocks every cell.
    pub fn clear(&mut self)
        ensures
            final(self).wf(),
            final(self).cells() == Seq::new(NAV_CELLS as nat, |i: int| false),
    {
        *self = NavGrid::new();
    }

    /// Whether a cell cannot be entered; cells off the grid count as blocked.
    pub fn is_blocked(&self, gx: usize, gy: usize) -> (res: bool)
        requires
            self.wf(),
        ensures
            res == !walkable(self.cells(), gx as int, gy as int),
    {
        if gx >= NAV_GRID_DIM || gy >= NAV_GRID_DIM {
            true
        } else {
            self.blocked[gy * NAV_GRID_DIM + gx]
        }
    }

    /// Sets the flag of a cell on the grid; a cell off the grid is ignored.
    pub fn set_blocked(&mut self, gx: usize, gy: usize, blocked: bool)
        requires
            old(self).wf(),
        ensures
            final(self).wf(),
            in_grid(gx as int, gy as int) ==> final(self).cells() == old(self).cells().update(
                cell_index(gx as int, gy as int),
                blocked,
            ),
            !in_grid(gx as int, gy as int) ==> final(self).cells() == old(self).cells(),
    {
        if gx < NAV_GRID_DIM && gy < NAV_GRID_DIM {
            self.blocked.set(gy * NAV_GRID_DIM + gx, blocked);
        }
    }
}

impl Default for NavGrid {
    fn default() -> (res: Self)
        ensures
            res.wf(),
            res.cells() == Seq::new(NAV_CELLS as nat, |i: int| false),
    {
        NavGrid::new()
    }
}

/// Reading a cell back after setting it gives what was set, and leaves every other cell as it was.
pub proof fn law_set_then_read(cells: Seq<bool>, x: int, y: int, bx: int, by_: int, blocked: bool)
    requires
        cells.len() == NAV_CELLS,
        in_grid(x, y),
    ensures
        walkable(cells.update(cell_index(x, y), blocked), x, y) == !blocked,
        in_grid(bx, by_) && !(bx == x && by_ == y) ==> walkable(
            cells.update(cell_index(x, y), blocked),
            bx,
            by_,
        ) == walkable(cells, bx, by_),
{
}

/// Every cell of a route is walkable; a route never passes through a blocked cell.
pub proof fn law_route_cells_walkable(
    cells: Seq<bool>,
    path: Seq<(usize, usize)>,
    start: (usize, usize),
    goal: (usize, usize),
    k: int,
)
    requires
        is_cell_path(cells, path, start, goal),
        0 <= k < path.len(),
    ensures
        walkable(cells, path[k].0 as int, path[k].1 as int),
{
    if k > 0 {
        assert(step_at(cells, path, k - 1));
    }
}

} // verus!
