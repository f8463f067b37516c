use vstd::prelude::*;
use crate::navgrid::{
    cell_index, dir_dx, dir_dy, in_grid, is_cell_path, reachable, step_at, valid_step, walkable,
    NavGrid, DIAGONAL_STEP_COST, NAV_CELLS, NAV_GRID_DIM, STRAIGHT_STEP_COST,
};

verus! {

/// Best known cost of a cell that has not been reached yet.
pub const UNREACHED: u32 = 0xFFFF_FFFF;

/// The search has found some route to the cell.
pub open spec fn reached(g: Seq<u32>, x: int, y: int) -> bool {
    g[cell_index(x, y)] != UNREACHED
}

/// Cost of one step between neighbouring cells: a diagonal step or a straight one.
pub open spec fn step_cost(ax: int, ay: int, bx: int, by_: int) -> int {
    if ax != bx && ay != by_ {
        DIAGONAL_STEP_COST as int
    } else {
        STRAIGHT_STEP_COST as int
    }
}

/// Total step cost of a route.
pub open spec fn path_cost(path: Seq<(usize, usize)>) -> int
    decreases path.len(),
{
    if path.len() <= 1 {
        0
    } else {
        step_cost(path[0].0 as int, path[0].1 as int, path[1].0 as int, path[1].1 as int)
            + path_cost(path.subrange(1, path.len() as int))
    }
}

/// `path` is a route from `start` to `goal`, and no route between them costs less.
pub open spec fn is_cheapest_path(
    cells: Seq<bool>,
    path: Seq<(usize, usize)>,
    start: (usize, usize),
    goal: (usize, usize),
) -> bool {
    &&& is_cell_path(cells, path, start, goal)
    &&& forall|q: Seq<(usize, usize)>|
        #[trigger] is_cell_path(cells, q, start, goal) ==> path_cost(path) <= path_cost(q)
}

/// Octile distance between two cells in step-cost units: straight steps along the longer axis,
/// diagonal steps for the shorter one.
pub open spec fn octile_distance(ax: int, ay: int, bx: int, by_: int) -> int {
    let dx = if ax > bx {
        ax - bx
    } else {
        bx - ax
    };
    let dy = if ay > by_ {
        ay - by_
    } else {
        by_ - ay
    };
    if dx > dy {
        500 * dx + 207 * dy
    } else {
        500 * dy + 207 * dx
    }
}

/// One step changes the octile distance to a fixed cell by no more than the step's cost.
proof fn lemma_octile_step(ax: int, ay: int, bx: int, by_: int, gx: int, gy: int)
    requires
        -1 <= bx - ax <= 1,
        -1 <= by_ - ay <= 1,
    ensures
        octile_distance(ax, ay, gx, gy) <= step_cost(ax, ay, bx, by_) + octile_distance(
            bx,
            by_,
            gx,
            gy,
        ),
{
}

/// The cost of a route splits at any of its cells.
proof fn lemma_path_cost_split(p: Seq<(usize, usize)>, j: int)
    requires
        0 <= j < p.len(),
    ensures
        path_cost(p) == path_cost(p.subrange(0, j + 1)) + path_cost(p.subrange(j, p.len() as int)),
    decreases j,
{
    if j == 0 {
        assert(p.subrange(0, p.len() as int) =~= p);
    } else {
        let rest = p.subrange(1, p.len() as int);
        lemma_path_cost_split(rest, j - 1);
        assert(rest.subrange(j - 1, rest.len() as int) =~= p.subrange(j, p.len() as int));
        let pre = p.subrange(0, j + 1);
        assert(pre.subrange(1, pre.len() as int) =~= rest.subrange(0, j));
    }
}

/// The parts of a route before and after one of its cells are routes too.
proof fn lemma_sub_paths(
    cells: Seq<bool>,
    q: Seq<(usize, usize)>,
    start: (usize, usize),
    goal: (usize, usize),
    j: int,
)
    requires
        is_cell_path(cells, q, start, goal),
        0 <= j < q.len(),
    ensures
        is_cell_path(cells, q.subrange(0, j + 1), start, q[j]),
        is_cell_path(cells, q.subrange(j, q.len() as int), q[j], goal),
{
    let pre = q.subrange(0, j + 1);
    let post = q.subrange(j, q.len() as int);
    assert forall|k: int| 0 <= k < pre.len() - 1 implies #[trigger] step_at(cells, pre, k) by {
        assert(step_at(cells, q, k));
    }
    assert forall|k: int| 0 <= k < post.len() - 1 implies #[trigger] step_at(cells, post, k) by {
        assert(step_at(cells, q, k + j));
    }
    crate::navgrid::law_route_cells_walkable(cells, q, start, goal, j);
}

/// Along a route the octile distance to a fixed cell drops by at most the route's cost.
proof fn lemma_octile_path(
    cells: Seq<bool>,
    p: Seq<(usize, usize)>,
    a: (usize, usize),
    b: (usize, usize),
    gx: int,
    gy: int,
)
    requires
        is_cell_path(cells, p, a, b),
    ensures
        octile_distance(a.0 as int, a.1 as int, gx, gy) <= path_cost(p) + octile_distance(
            b.0 as int,
            b.1 as int,
            gx,
            gy,
        ),
    decreases p.len(),
{
    if p.len() > 1 {
        assert(step_at(cells, p, 0));
        lemma_sub_paths(cells, p, a, b, 1);
        lemma_octile_path(cells, p.subrange(1, p.len() as int), p[1], b, gx, gy);
        lemma_octile_step(
            a.0 as int,
            a.1 as int,
            p[1].0 as int,
            p[1].1 as int,
            gx,
            gy,
        );
    }
}

/// A cell that the search has reached and not closed yet.
pub open spec fn open_cell(g: Seq<u32>, closed: Seq<bool>, x: int, y: int) -> bool {
    in_grid(x, y) && reached(g, x, y) && !closed[cell_index(x, y)]
}

/// Estimated total cost of a route through a cell: its best known cost plus its octile
/// distance to the goal.
pub open spec fn f_value(g: Seq<u32>, goal: (usize, usize), x: int, y: int) -> int {
    g[cell_index(x, y)] + octile_distance(x, y, goal.0 as int, goal.1 as int)
}

/// The cell `u` is open and no open cell has a smaller estimated total cost.
pub open spec fn is_best_open(
    g: Seq<u32>,
    closed: Seq<bool>,
    goal: (usize, usize),
    u: (usize, usize),
) -> bool {
    &&& open_cell(g, closed, u.0 as int, u.1 as int)
    &&& forall|x: int, y: int|
        #[trigger] open_cell(g, closed, x, y) ==> f_value(g, goal, u.0 as int, u.1 as int)
            <= f_value(g, goal, x, y)
}

/// No route from the start to a closed cell costs less than the cell's known cost.
pub open spec fn closed_optimal(
    cells: Seq<bool>,
    g: Seq<u32>,
    closed: Seq<bool>,
    start: (usize, usize),
) -> bool {
    forall|q: Seq<(usize, usize)>, c: (usize, usize)|
        #[trigger] is_cell_path(cells, q, start, c) && in_grid(c.0 as int, c.1 as int)
            && closed[cell_index(c.0 as int, c.1 as int)] ==> g[cell_index(c.0 as int, c.1 as int)]
            <= path_cost(q)
}

/// Every step out of a closed cell into a cell that is not closed has been relaxed.
pub open spec fn closed_relaxed(cells: Seq<bool>, g: Seq<u32>, closed: Seq<bool>) -> bool {
    forall|x: int, y: int, nx: int, ny: int|
        #![trigger closed[cell_index(x, y)], valid_step(cells, x, y, nx, ny)]
        in_grid(x, y) && closed[cell_index(x, y)] && valid_step(cells, x, y, nx, ny)
            && !closed[cell_index(nx, ny)] ==> g[cell_index(nx, ny)] <= g[cell_index(x, y)]
            + step_cost(x, y, nx, ny)
}

/// The first cell of a route, from position `i` on, that is not closed.
proof fn lemma_first_open(closed: Seq<bool>, q: Seq<(usize, usize)>, i: int) -> (j: int)
    requires
        0 <= i < q.len(),
        forall|k: int| 0 <= k < i ==> closed[cell_index(q[k].0 as int, q[k].1 as int)],
        !closed[cell_index(q[q.len() - 1].0 as int, q[q.len() - 1].1 as int)],
    ensures
        i <= j < q.len(),
        !closed[cell_index(q[j].0 as int, q[j].1 as int)],
        forall|k: int| 0 <= k < j ==> closed[cell_index(q[k].0 as int, q[k].1 as int)],
    decreases q.len() - i,
{
    if !closed[cell_index(q[i].0 as int, q[i].1 as int)] {
        i
    } else {
        lemma_first_open(closed, q, i + 1)
    }
}

/// The open cell with the least estimated total cost is reached by a cheapest route: no route
/// from the start to it costs less than its known cost.
proof fn lemma_picked_optimal(
    cells: Seq<bool>,
    g: Seq<u32>,
    closed: Seq<bool>,
    start: (usize, usize),
    goal: (usize, usize),
    u: (usize, usize),
    q: Seq<(usize, usize)>,
)
    requires
        g.len() == NAV_CELLS,
        closed.len() == NAV_CELLS,
        in_grid(start.0 as int, start.1 as int),
        g[cell_index(start.0 as int, start.1 as int)] == 0,
        forall|x: int, y: int|
            #![trigger g[cell_index(x, y)]]
            in_grid(x, y) && reached(g, x, y) ==> g[cell_index(x, y)] <= 707 * NAV_CELLS,
        forall|x: int, y: int|
            #![trigger closed[cell_index(x, y)]]
            in_grid(x, y) && closed[cell_index(x, y)] ==> reached(g, x, y),
        closed_optimal(cells, g, closed, start),
        closed_relaxed(cells, g, closed),
        is_best_open(g, closed, goal, u),
        is_cell_path(cells, q, start, u),
    ensures
        g[cell_index(u.0 as int, u.1 as int)] <= path_cost(q),
{
    let n = q.len() as int;
    let j = lemma_first_open(closed, q, 0);
    crate::navgrid::law_route_cells_walkable(cells, q, start, u, j);
    let w = q[j];
    if j == 0 {
        assert(open_cell(g, closed, start.0 as int, start.1 as int));
        lemma_octile_path(cells, q, start, u, goal.0 as int, goal.1 as int);
    } else {
        let v = q[j - 1];
        crate::navgrid::law_route_cells_walkable(cells, q, start, u, j - 1);
        lemma_sub_paths(cells, q, start, u, j - 1);
        assert(closed[cell_index(v.0 as int, v.1 as int)]);
        assert(is_cell_path(cells, q.subrange(0, j), start, v));
        assert(g[cell_index(v.0 as int, v.1 as int)] <= path_cost(q.subrange(0, j)));
        assert(reached(g, v.0 as int, v.1 as int));
        assert(step_at(cells, q, j - 1));
        assert(valid_step(cells, v.0 as int, v.1 as int, w.0 as int, w.1 as int));
        assert(g[cell_index(w.0 as int, w.1 as int)] <= g[cell_index(v.0 as int, v.1 as int)]
            + step_cost(v.0 as int, v.1 as int, w.0 as int, w.1 as int));
        assert(open_cell(g, closed, w.0 as int, w.1 as int));
        lemma_sub_paths(cells, q, start, u, j);
        lemma_path_cost_split(q, j);
        let pre = q.subrange(0, j + 1);
        lemma_path_cost_split(pre, j - 1);
        assert(pre.subrange(0, j) =~= q.subrange(0, j));
        let last = pre.subrange(j - 1, j + 1);
        assert(path_cost(last.subrange(1, 2)) == 0);
        assert(path_cost(last) == step_cost(v.0 as int, v.1 as int, w.0 as int, w.1 as int));
        lemma_octile_path(cells, q.subrange(j, n), w, u, goal.0 as int, goal.1 as int);
    }
}

/// No route between two cells costs less than their octile distance (the search's estimate
/// never overshoots).
pub proof fn law_route_cost_at_least_octile(
    cells: Seq<bool>,
    path: Seq<(usize, usize)>,
    start: (usize, usize),
    goal: (usize, usize),
)
    requires
        is_cell_path(cells, path, start, goal),
    ensures
        octile_distance(start.0 as int, start.1 as int, goal.0 as int, goal.1 as int) <= path_cost(
            path,
        ),
{
    lemma_octile_path(cells, path, start, goal, goal.0 as int, goal.1 as int);
}

/// Number of `true` entries of a sequence.
pub open spec fn count_true(s: Seq<bool>) -> nat
    decreases s.len(),
{
    if s.len() == 0 {
        0
    } else {
        count_true(s.drop_last()) + if s.last() {
            1nat
        } else {
            0nat
        }
    }
}

proof fn lemma_count_true_bound(s: Seq<bool>)
    ensures
        count_true(s) <= s.len(),
    decreases s.len(),
{
    if s.len() > 0 {
        lemma_count_true_bound(s.drop_last());
    }
}

proof fn lemma_count_true_set(s: Seq<bool>, i: int)
    requires
        0 <= i < s.len(),
        !s[i],
    ensures
        count_true(s.update(i, true)) == count_true(s) + 1,
    decreases s.len(),
{
    if i == s.len() - 1 {
        assert(s.update(i, true).drop_last() =~= s.drop_last());
    } else {
        assert(s.update(i, true).drop_last() =~= s.drop_last().update(i, true));
        lemma_count_true_set(s.drop_last(), i);
    }
}

/// Every link of the parent table is a valid step from a reached cell whose cost plus the
/// step's cost is at most the linked cell's cost.
pub open spec fn parents_ok(cells: Seq<bool>, g: Seq<u32>, parent: Seq<Option<(usize, usize)>>) -> bool {
    forall|x: int, y: int|
        #![trigger parent[cell_index(x, y)]]
        in_grid(x, y) && parent[cell_index(x, y)] is Some ==> {
            let p = parent[cell_index(x, y)]->Some_0;
            &&& reached(g, x, y)
            &&& in_grid(p.0 as int, p.1 as int)
            &&& reached(g, p.0 as int, p.1 as int)
            &&& g[cell_index(p.0 as int, p.1 as int)] + step_cost(p.0 as int, p.1 as int, x, y)
                <= g[cell_index(x, y)]
            &&& valid_step(cells, p.0 as int, p.1 as int, x, y)
        }
}

/// Every reached cell but the start has a parent.
pub open spec fn parents_cover(g: Seq<u32>, parent: Seq<Option<(usize, usize)>>, start: (usize, usize)) -> bool {
    forall|x: int, y: int|
        #![trigger g[cell_index(x, y)]]
        in_grid(x, y) && reached(g, x, y) && !(x == start.0 && y == start.1)
            ==> parent[cell_index(x, y)] is Some
}

/// Every valid step out of a closed cell leads to a reached cell.
pub open spec fn closed_expanded(cells: Seq<bool>, g: Seq<u32>, closed: Seq<bool>) -> bool {
    forall|x: int, y: int, cx: int, cy: int|
        #![trigger closed[cell_index(x, y)], valid_step(cells, x, y, cx, cy)]
        in_grid(x, y) && closed[cell_index(x, y)] && valid_step(cells, x, y, cx, cy)
            ==> reached(g, cx, cy)
}

/// The state that the search keeps between two expansions.
pub open spec fn search_inv(
    cells: Seq<bool>,
    g: Seq<u32>,
    parent: Seq<Option<(usize, usize)>>,
    closed: Seq<bool>,
    n_closed: nat,
    start: (usize, usize),
    goal: (usize, usize),
) -> bool {
    &&& g.len() == NAV_CELLS
    &&& parent.len() == NAV_CELLS
    &&& closed.len() == NAV_CELLS
    &&& n_closed == count_true(closed)
    &&& in_grid(start.0 as int, start.1 as int)
    &&& in_grid(goal.0 as int, goal.1 as int)
    &&& g[cell_index(start.0 as int, start.1 as int)] == 0
    &&& forall|x: int, y: int|
        #![trigger g[cell_index(x, y)]]
        in_grid(x, y) && reached(g, x, y) ==> walkable(cells, x, y) && g[cell_index(x, y)] <= 707
            * n_closed
    &&& forall|x: int, y: int|
        #![trigger closed[cell_index(x, y)]]
        in_grid(x, y) && closed[cell_index(x, y)] ==> reached(g, x, y)
    &&& parents_ok(cells, g, parent)
    &&& parents_cover(g, parent, start)
    &&& closed_expanded(cells, g, closed)
    &&& closed_optimal(cells, g, closed, start)
    &&& closed_relaxed(cells, g, closed)
    &&& !closed[cell_index(goal.0 as int, goal.1 as int)]
}

/// The neighbour of a cell in direction `d`, when it lies on the grid.
fn neighbor(x: usize, y: usize, d: usize) -> (r: Option<(usize, usize)>)
    requires
        x < NAV_GRID_DIM,
        y < NAV_GRID_DIM,
        d < 8,
    ensures
        r matches Some(n) ==> n.0 as int == x + dir_dx(d as int) && n.1 as int == y + dir_dy(
            d as int,
        ) && in_grid(n.0 as int, n.1 as int),
        r is None ==> !in_grid(x + dir_dx(d as int), y + dir_dy(d as int)),
{
    let nx: i64 = if d == 0 || d == 4 || d == 5 {
        x as i64 + 1
    } else if d == 1 || d == 6 || d == 7 {
        x as i64 - 1
    } else {
        x as i64
    };
    let ny: i64 = if d == 2 || d == 4 || d == 6 {
        y as i64 + 1
    } else if d == 3 || d == 5 || d == 7 {
        y as i64 - 1
    } else {
        y as i64
    };
    if nx < 0 || nx >= 64 || ny < 0 || ny >= 64 {
        None
    } else {
        Some((nx as usize, ny as usize))
    }
}

/// Octile distance between two cells, in step-cost units (the search's estimate of the cost left).
fn octile(ax: usize, ay: usize, cx: usize, cy: usize) -> (h: u32)
    requires
        ax < NAV_GRID_DIM,
        ay < NAV_GRID_DIM,
        cx < NAV_GRID_DIM,
        cy < NAV_GRID_DIM,
    ensures
        h == octile_distance(ax as int, ay as int, cx as int, cy as int),
        h <= 44541,
{
    let dx: u32 = if ax > cx {
        (ax - cx) as u32
    } else {
        (cx - ax) as u32
    };
    let dy: u32 = if ay > cy {
        (ay - cy) as u32
    } else {
        (cy - ay) as u32
    };
    if dx > dy {
        500 * dx + 207 * dy
    } else {
        500 * dy + 207 * dx
    }
}

/// Direction number of a unit offset (the inverse of `dir_dx`, `dir_dy`).
spec fn dir_of(dx: int, dy: int) -> int {
    if dy == 0 {
        if dx == 1 {
            0
        } else {
            1
        }
    } else if dx == 0 {
        if dy == 1 {
            2
        } else {
            3
        }
    } else if dx == 1 {
        if dy == 1 {
            4
        } else {
            5
        }
    } else if dy == 1 {
        6
    } else {
        7
    }
}

proof fn lemma_dir_of(dx: int, dy: int)
    requires
        -1 <= dx <= 1,
        -1 <= dy <= 1,
        dx != 0 || dy != 0,
    ensures
        0 <= dir_of(dx, dy) < 8,
        dir_dx(dir_of(dx, dy)) == dx,
        dir_dy(dir_of(dx, dy)) == dy,
{
}

/// Each cell of a route that starts at a reached cell is reached, when the only cells that are
/// reached are closed ones.
proof fn lemma_route_reached(
    cells: Seq<bool>,
    g: Seq<u32>,
    closed: Seq<bool>,
    path: Seq<(usize, usize)>,
    start: (usize, usize),
    goal: (usize, usize),
    k: int,
)
    requires
        is_cell_path(cells, path, start, goal),
        0 <= k < path.len(),
        reached(g, start.0 as int, start.1 as int),
        forall|x: int, y: int|
            #![trigger g[cell_index(x, y)]]
            in_grid(x, y) && reached(g, x, y) ==> closed[cell_index(x, y)],
        closed_expanded(cells, g, closed),
    ensures
        in_grid(path[k].0 as int, path[k].1 as int),
        reached(g, path[k].0 as int, path[k].1 as int),
    decreases k,
{
    if k > 0 {
        lemma_route_reached(cells, g, closed, path, start, goal, k - 1);
        assert(step_at(cells, path, k - 1));
        let a = path[k - 1];
        let b = path[k];
        assert(closed[cell_index(a.0 as int, a.1 as int)]);
        assert(valid_step(cells, a.0 as int, a.1 as int, b.0 as int, b.1 as int));
    }
}

/// The last cell of a route is walkable.
proof fn lemma_route_ends_walkable(
    cells: Seq<bool>,
    path: Seq<(usize, usize)>,
    start: (usize, usize),
    goal: (usize, usize),
)
    requires
        is_cell_path(cells, path, start, goal),
    ensures
        walkable(cells, goal.0 as int, goal.1 as int),
{
    if path.len() > 1 {
        assert(step_at(cells, path, path.len() - 2));
    }
}

/// Follows the parent links from the goal back to the start and returns the route in order;
/// the route costs no more than the goal's known cost.
fn trace_route(
    parent: &Vec<Option<(usize, usize)>>,
    g: &Vec<u32>,
    start: (usize, usize),
    goal: (usize, usize),
    Ghost(cells): Ghost<Seq<bool>>,
) -> (path: Vec<(usize, usize)>)
    requires
        parent@.len() == NAV_CELLS,
        g@.len() == NAV_CELLS,
        in_grid(start.0 as int, start.1 as int),
        in_grid(goal.0 as int, goal.1 as int),
        walkable(cells, start.0 as int, start.1 as int),
        g@[cell_index(start.0 as int, start.1 as int)] == 0,
        reached(g@, goal.0 as int, goal.1 as int),
        parents_ok(cells, g@, parent@),
        parents_cover(g@, parent@, start),
    ensures
        is_cell_path(cells, path@, start, goal),
        path_cost(path@) <= g@[cell_index(goal.0 as int, goal.1 as int)],
{
    let mut path: Vec<(usize, usize)> = Vec::new();
    path.push(goal);
    let mut cur = goal;
    while cur.0 != start.0 || cur.1 != start.1
        invariant
            parent@.len() == NAV_CELLS,
            g@.len() == NAV_CELLS,
            parents_ok(cells, g@, parent@),
            parents_cover(g@, parent@, start),
            path@.len() >= 1,
            path@[0] == cur,
            path@[path@.len() - 1] == goal,
            in_grid(cur.0 as int, cur.1 as int),
            reached(g@, cur.0 as int, cur.1 as int),
            forall|k: int| 0 <= k < path@.len() - 1 ==> #[trigger] step_at(cells, path@, k),
            g@[cell_index(cur.0 as int, cur.1 as int)] + path_cost(path@) <= g@[cell_index(
                goal.0 as int,
                goal.1 as int,
            )],
        decreases g@[cell_index(cur.0 as int, cur.1 as int)],
    {
        let ghost old_path = path@;
        let ci = cur.1 * NAV_GRID_DIM + cur.0;
        assert(g@[cell_index(cur.0 as int, cur.1 as int)] != UNREACHED);
        assert(parent@[cell_index(cur.0 as int, cur.1 as int)] is Some);
        let p = match parent[ci] {
            Some(p) => p,
            None => {
                proof {
                    assert(false);
                }
                cur
            },
        };
        path.insert(0, p);
        proof {
            assert(path@.subrange(1, path@.len() as int) =~= old_path);
            assert forall|k: int| 0 <= k < path@.len() - 1 implies #[trigger] step_at(
                cells,
                path@,
                k,
            ) by {
                if k > 0 {
                    assert(step_at(cells, old_path, k - 1));
                }
            }
        }
        cur = p;
    }
    path
}

/// The open cell (reached, not closed) with the least estimated total cost, if any.
fn pick_open(g: &Vec<u32>, closed: &Vec<bool>, goal: (usize, usize)) -> (best: Option<(usize, usize)>)
    requires
        g@.len() == NAV_CELLS,
        closed@.len() == NAV_CELLS,
        in_grid(goal.0 as int, goal.1 as int),
        forall|x: int, y: int|
            #![trigger g@[cell_index(x, y)]]
            in_grid(x, y) && reached(g@, x, y) ==> g@[cell_index(x, y)] <= 707 * NAV_CELLS,
    ensures
        best matches Some(b) ==> is_best_open(g@, closed@, goal, b),
        best is None ==> forall|x: int, y: int|
            #![trigger g@[cell_index(x, y)]]
            in_grid(x, y) && reached(g@, x, y) ==> closed@[cell_index(x, y)],
{
    let mut best: Option<(usize, usize)> = None;
    let mut best_f: u32 = 0;
    let mut y: usize = 0;
    while y < NAV_GRID_DIM
        invariant
            y <= NAV_GRID_DIM,
            g@.len() == NAV_CELLS,
            closed@.len() == NAV_CELLS,
            in_grid(goal.0 as int, goal.1 as int),
            forall|x: int, y: int|
                #![trigger g@[cell_index(x, y)]]
                in_grid(x, y) && reached(g@, x, y) ==> g@[cell_index(x, y)] <= 707 * NAV_CELLS,
            best matches Some(b) ==> open_cell(g@, closed@, b.0 as int, b.1 as int) && best_f
                == f_value(g@, goal, b.0 as int, b.1 as int) && forall|xx: int, yy: int|
                #![trigger open_cell(g@, closed@, xx, yy)]
                open_cell(g@, closed@, xx, yy) && yy < y ==> best_f <= f_value(g@, goal, xx, yy),
            best is None ==> forall|x: int, yy: int|
                #![trigger g@[cell_index(x, yy)]]
                0 <= x < 64 && 0 <= yy < y && reached(g@, x, yy) ==> closed@[cell_index(x, yy)],
        decreases NAV_GRID_DIM - y,
    {
        let mut x: usize = 0;
        while x < NAV_GRID_DIM
            invariant
                x <= NAV_GRID_DIM,
                y < NAV_GRID_DIM,
                g@.len() == NAV_CELLS,
                closed@.len() == NAV_CELLS,
                in_grid(goal.0 as int, goal.1 as int),
                forall|x: int, y: int|
                    #![trigger g@[cell_index(x, y)]]
                    in_grid(x, y) && reached(g@, x, y) ==> g@[cell_index(x, y)] <= 707 * NAV_CELLS,
                best matches Some(b) ==> open_cell(g@, closed@, b.0 as int, b.1 as int) && best_f
                    == f_value(g@, goal, b.0 as int, b.1 as int) && forall|xx: int, yy: int|
                    #![trigger open_cell(g@, closed@, xx, yy)]
                    open_cell(g@, closed@, xx, yy) && (yy < y || (yy == y && xx < x)) ==> best_f
                        <= f_value(g@, goal, xx, yy),
                best is None ==> forall|xx: int, yy: int|
                    #![trigger g@[cell_index(xx, yy)]]
                    0 <= xx < 64 && (0 <= yy < y || (yy == y && 0 <= xx < x)) && reached(g@, xx, yy)
                        ==> closed@[cell_index(xx, yy)],
            decreases NAV_GRID_DIM - x,
        {
            let ci = y * NAV_GRID_DIM + x;
            let gc = g[ci];
            if gc != UNREACHED && !closed[ci] {
                assert(gc <= 707 * 4096) by {
                    assert(reached(g@, x as int, y as int));
                }
                let f = gc + octile(x, y, goal.0, goal.1);
                let better = match best {
                    None => true,
                    Some(_) => f < best_f,
                };
                if better {
                    best = Some((x, y));
                    best_f = f;
                }
            }
            x = x + 1;
        }
        y = y + 1;
    }
    best
}

impl NavGrid {
    /// Relaxes the neighbour of the closed cell `(cx, cy)` in direction `d`: when a valid step
    /// reaches it and it is not closed, it gets the cheaper of its cost and the cost `gb` of
    /// `(cx, cy)` plus the step.
    #[verifier::spinoff_prover]
    fn relax(
        &self,
        g: &mut Vec<u32>,
        parent: &mut Vec<Option<(usize, usize)>>,
        closed: &Vec<bool>,
        cx: usize,
        cy: usize,
        gb: u32,
        d: usize,
        Ghost(n_closed): Ghost<nat>,
        Ghost(start): Ghost<(usize, usize)>,
    )
        requires
            self.wf(),
            old(g)@.len() == NAV_CELLS,
            old(parent)@.len() == NAV_CELLS,
            closed@.len() == NAV_CELLS,
            d < 8,
            in_grid(cx as int, cy as int),
            in_grid(start.0 as int, start.1 as int),
            closed@[cell_index(cx as int, cy as int)],
            gb == old(g)@[cell_index(cx as int, cy as int)],
            gb != UNREACHED,
            gb + 707 <= 707 * n_closed,
            n_closed <= NAV_CELLS,
            old(g)@[cell_index(start.0 as int, start.1 as int)] == 0,
            forall|x: int, y: int|
                #![trigger old(g)@[cell_index(x, y)]]
                in_grid(x, y) && reached(old(g)@, x, y) ==> walkable(self.cells(), x, y)
                    && old(g)@[cell_index(x, y)] <= 707 * n_closed,
            forall|x: int, y: int|
                #![trigger closed@[cell_index(x, y)]]
                in_grid(x, y) && closed@[cell_index(x, y)] ==> reached(old(g)@, x, y),
            parents_ok(self.cells(), old(g)@, old(parent)@),
            parents_cover(old(g)@, old(parent)@, start),
        ensures
            final(g)@.len() == NAV_CELLS,
            final(parent)@.len() == NAV_CELLS,
            final(g)@[cell_index(start.0 as int, start.1 as int)] == 0,
            forall|x: int, y: int|
                #![trigger final(g)@[cell_index(x, y)]]
                in_grid(x, y) && reached(final(g)@, x, y) ==> walkable(self.cells(), x, y)
                    && final(g)@[cell_index(x, y)] <= 707 * n_closed,
            forall|x: int, y: int|
                #![trigger final(g)@[cell_index(x, y)]]
                in_grid(x, y) ==> final(g)@[cell_index(x, y)] <= old(g)@[cell_index(x, y)],
            forall|x: int, y: int|
                #![trigger closed@[cell_index(x, y)]]
                in_grid(x, y) && closed@[cell_index(x, y)] ==> final(g)@[cell_index(x, y)] == old(
                    g,
                )@[cell_index(x, y)],
            parents_ok(self.cells(), final(g)@, final(parent)@),
            parents_cover(final(g)@, final(parent)@, start),
            valid_step(self.cells(), cx as int, cy as int, cx + dir_dx(d as int), cy + dir_dy(d as int))
                ==> reached(final(g)@, cx + dir_dx(d as int), cy + dir_dy(d as int)) && (!closed@[cell_index(
                cx + dir_dx(d as int),
                cy + dir_dy(d as int),
            )] ==> final(g)@[cell_index(cx + dir_dx(d as int), cy + dir_dy(d as int))] <= gb + step_cost(
                cx as int,
                cy as int,
                cx + dir_dx(d as int),
                cy + dir_dy(d as int),
            )),
    {
        let ghost cells = self.cells();
        match neighbor(cx, cy, d) {
            None => {},
            Some(n) => {
                let (nx, ny) = n;
                let diagonal = nx != cx && ny != cy;
                let ok = !self.is_blocked(nx, ny) && !(diagonal && (self.is_blocked(cx, ny)
                    || self.is_blocked(nx, cy)));
                if ok {
                    let ni = ny * NAV_GRID_DIM + nx;
                    if !closed[ni] {
                        let cost: u32 = if diagonal {
                            DIAGONAL_STEP_COST
                        } else {
                            STRAIGHT_STEP_COST
                        };
                        let next = gb + cost;
                        if next < g[ni] {
                            let ghost old_g = g@;
                            let ghost old_parent = parent@;
                            g.set(ni, next);
                            parent.set(ni, Some((cx, cy)));
                            proof {
                                lemma_relax_keeps(
                                    cells,
                                    old_g,
                                    old_parent,
                                    g@,
                                    parent@,
                                    cx,
                                    cy,
                                    nx,
                                    ny,
                                    start,
                                );
                            }
                        }
                    } else {
                        assert(reached(g@, nx as int, ny as int));
                    }
                }
            },
        }
    }

    /// Relaxes the eight neighbours of the closed cell `(cx, cy)`: each neighbour that a valid
    /// step reaches and that is not closed gets the cheaper of its cost and the cost through
    /// `(cx, cy)`.
    #[verifier::spinoff_prover]
    fn expand(
        &self,
        g: &mut Vec<u32>,
        parent: &mut Vec<Option<(usize, usize)>>,
        closed: &Vec<bool>,
        cx: usize,
        cy: usize,
        Ghost(n_closed): Ghost<nat>,
        Ghost(start): Ghost<(usize, usize)>,
    )
        requires
            self.wf(),
            old(g)@.len() == NAV_CELLS,
            old(parent)@.len() == NAV_CELLS,
            closed@.len() == NAV_CELLS,
            in_grid(cx as int, cy as int),
            in_grid(start.0 as int, start.1 as int),
            closed@[cell_index(cx as int, cy as int)],
            reached(old(g)@, cx as int, cy as int),
            old(g)@[cell_index(cx as int, cy as int)] + 707 <= 707 * n_closed,
            n_closed <= NAV_CELLS,
            old(g)@[cell_index(start.0 as int, start.1 as int)] == 0,
            forall|x: int, y: int|
                #![trigger old(g)@[cell_index(x, y)]]
                in_grid(x, y) && reached(old(g)@, x, y) ==> walkable(self.cells(), x, y)
                    && old(g)@[cell_index(x, y)] <= 707 * n_closed,
            forall|x: int, y: int|
                #![trigger closed@[cell_index(x, y)]]
                in_grid(x, y) && closed@[cell_index(x, y)] ==> reached(old(g)@, x, y),
            parents_ok(self.cells(), old(g)@, old(parent)@),
            parents_cover(old(g)@, old(parent)@, start),
        ensures
            final(g)@.len() == NAV_CELLS,
            final(parent)@.len() == NAV_CELLS,
            final(g)@[cell_index(start.0 as int, start.1 as int)] == 0,
            forall|x: int, y: int|
                #![trigger final(g)@[cell_index(x, y)]]
                in_grid(x, y) && reached(final(g)@, x, y) ==> walkable(self.cells(), x, y)
                    && final(g)@[cell_index(x, y)] <= 707 * n_closed,
            forall|x: int, y: int|
                #![trigger final(g)@[cell_index(x, y)]]
                in_grid(x, y) && reached(old(g)@, x, y) ==> reached(final(g)@, x, y),
            parents_ok(self.cells(), final(g)@, final(parent)@),
            parents_cover(final(g)@, final(parent)@, start),
            forall|ax: int, ay: int|
                #[trigger] valid_step(self.cells(), cx as int, cy as int, ax, ay) ==> reached(
                    final(g)@,
                    ax,
                    ay,
                ),
            forall|x: int, y: int|
                #![trigger closed@[cell_index(x, y)]]
                in_grid(x, y) && closed@[cell_index(x, y)] ==> final(g)@[cell_index(x, y)] == old(
                    g,
                )@[cell_index(x, y)],
            forall|x: int, y: int|
                #![trigger final(g)@[cell_index(x, y)]]
                in_grid(x, y) ==> final(g)@[cell_index(x, y)] <= old(g)@[cell_index(x, y)],
            forall|ax: int, ay: int|
                #[trigger] valid_step(self.cells(), cx as int, cy as int, ax, ay) && !closed@[cell_index(
                    ax,
                    ay,
                )] ==> final(g)@[cell_index(ax, ay)] <= old(g)@[cell_index(cx as int, cy as int)]
                    + step_cost(cx as int, cy as int, ax, ay),
    {
        let ghost cells = self.cells();
        let ghost g0 = g@;
        let gb = g[cy * NAV_GRID_DIM + cx];
        let mut d: usize = 0;
        while d < 8
            invariant
                d <= 8,
                self.wf(),
                cells == self.cells(),
                in_grid(cx as int, cy as int),
                in_grid(start.0 as int, start.1 as int),
                g@.len() == NAV_CELLS,
                parent@.len() == NAV_CELLS,
                closed@.len() == NAV_CELLS,
                closed@[cell_index(cx as int, cy as int)],
                gb == g@[cell_index(cx as int, cy as int)],
                gb != UNREACHED,
                gb + 707 <= 707 * n_closed,
                n_closed <= NAV_CELLS,
                g@[cell_index(start.0 as int, start.1 as int)] == 0,
                forall|x: int, y: int|
                    #![trigger g@[cell_index(x, y)]]
                    in_grid(x, y) && reached(g@, x, y) ==> walkable(cells, x, y) && g@[cell_index(x, y)]
                        <= 707 * n_closed,
                forall|x: int, y: int|
                    #![trigger closed@[cell_index(x, y)]]
                    in_grid(x, y) && closed@[cell_index(x, y)] ==> reached(g@, x, y),
                parents_ok(cells, g@, parent@),
                parents_cover(g@, parent@, start),
                forall|dd: int|
                    0 <= dd < d && #[trigger] valid_step(
                        cells,
                        cx as int,
                        cy as int,
                        cx + dir_dx(dd),
                        cy + dir_dy(dd),
                    ) ==> reached(g@, cx + dir_dx(dd), cy + dir_dy(dd)) && (!closed@[cell_index(
                        cx + dir_dx(dd),
                        cy + dir_dy(dd),
                    )] ==> g@[cell_index(cx + dir_dx(dd), cy + dir_dy(dd))] <= gb + step_cost(
                        cx as int,
                        cy as int,
                        cx + dir_dx(dd),
                        cy + dir_dy(dd),
                    )),
                forall|x: int, y: int|
                    #![trigger closed@[cell_index(x, y)]]
                    in_grid(x, y) && closed@[cell_index(x, y)] ==> g@[cell_index(x, y)] == g0[cell_index(
                        x,
                        y,
                    )],
                forall|x: int, y: int|
                    #![trigger g@[cell_index(x, y)]]
                    in_grid(x, y) ==> g@[cell_index(x, y)] <= g0[cell_index(x, y)],
            decreases 8 - d,
        {
            let ghost g_before = g@;
            self.relax(g, parent, closed, cx, cy, gb, d, Ghost(n_closed), Ghost(start));
            proof {
                assert forall|dd: int|
                    0 <= dd < d + 1 && #[trigger] valid_step(
                        cells,
                        cx as int,
                        cy as int,
                        cx + dir_dx(dd),
                        cy + dir_dy(dd),
                    ) implies reached(g@, cx + dir_dx(dd), cy + dir_dy(dd)) && (!closed@[cell_index(
                        cx + dir_dx(dd),
                        cy + dir_dy(dd),
                    )] ==> g@[cell_index(cx + dir_dx(dd), cy + dir_dy(dd))] <= gb + step_cost(
                        cx as int,
                        cy as int,
                        cx + dir_dx(dd),
                        cy + dir_dy(dd),
                    )) by {
                    let ax = cx + dir_dx(dd);
                    let ay = cy + dir_dy(dd);
                    assert(in_grid(ax, ay));
                    if dd < d {
                        assert(reached(g_before, ax, ay));
                        assert(g_before[cell_index(ax, ay)] != UNREACHED);
                        assert(g@[cell_index(ax, ay)] <= g_before[cell_index(ax, ay)]);
                    } else {
                        assert(dd == d);
                    }
                }
            }
            d = d + 1;
        }
        proof {
            assert forall|ax: int, ay: int|
                #[trigger] valid_step(cells, cx as int, cy as int, ax, ay) implies reached(
                g@,
                ax,
                ay,
            ) by {
                lemma_dir_of(ax - cx, ay - cy);
                let dd = dir_of(ax - cx, ay - cy);
                assert(valid_step(cells, cx as int, cy as int, cx + dir_dx(dd), cy + dir_dy(dd)));
            }
            assert forall|ax: int, ay: int|
                #[trigger] valid_step(cells, cx as int, cy as int, ax, ay) && !closed@[cell_index(
                    ax,
                    ay,
                )] implies g@[cell_index(ax, ay)] <= gb + step_cost(cx as int, cy as int, ax, ay) by {
                lemma_dir_of(ax - cx, ay - cy);
                let dd = dir_of(ax - cx, ay - cy);
                assert(valid_step(cells, cx as int, cy as int, cx + dir_dx(dd), cy + dir_dy(dd)));
            }
        }
    }

    /// 8-directional A* search over the cells, from `start` to `goal`.
    ///
    /// The route includes both end cells. Diagonal moves never cut the corner of a blocked
    /// cell. There is a route exactly when some chain of valid steps leads from `start` to
    /// `goal`, and the route found costs no more than any other (straight steps cost 500,
    /// diagonal ones 707).
    #[verifier::spinoff_prover]
    #[verifier::rlimit(60)]
    pub fn find_cell_path(&self, start: (usize, usize), goal: (usize, usize)) -> (res: Option<
        Vec<(usize, usize)>,
    >)
        requires
            self.wf(),
        ensures
            res is Some <==> reachable(self.cells(), start, goal),
            res matches Some(path) ==> is_cheapest_path(self.cells(), path@, start, goal),
    {
        let ghost cells = self.cells();
        if self.is_blocked(start.0, start.1) || self.is_blocked(goal.0, goal.1) {
            proof {
                if reachable(cells, start, goal) {
                    let path = choose|path: Seq<(usize, usize)>|
                        is_cell_path(cells, path, start, goal);
                    lemma_route_ends_walkable(cells, path, start, goal);
                }
            }
            return None;
        }
        let mut g: Vec<u32> = Vec::new();
        let mut parent: Vec<Option<(usize, usize)>> = Vec::new();
        let mut closed: Vec<bool> = Vec::new();
        let mut i: usize = 0;
        while i < NAV_CELLS
            invariant
                i <= NAV_CELLS,
                g@ == Seq::new(i as nat, |k: int| UNREACHED),
                parent@ == Seq::new(i as nat, |k: int| None::<(usize, usize)>),
                closed@ == Seq::new(i as nat, |k: int| false),
            decreases NAV_CELLS - i,
        {
            g.push(UNREACHED);
            parent.push(None);
            closed.push(false);
            i = i + 1;
        }
        let si = start.1 * NAV_GRID_DIM + start.0;
        g.set(si, 0);
        let mut n_closed: usize = 0;
        proof {
            assert(count_true(closed@) == 0) by {
                lemma_no_true_count(closed@);
            }
            assert forall|x: int, y: int|
                #![trigger g@[cell_index(x, y)]]
                in_grid(x, y) && reached(g@, x, y) implies walkable(cells, x, y)
                && g@[cell_index(x, y)] <= 707 * 0 by {
                if cell_index(x, y) != cell_index(start.0 as int, start.1 as int) {
                    assert(g@[cell_index(x, y)] == UNREACHED);
                }
            }
            assert forall|x: int, y: int|
                #![trigger g@[cell_index(x, y)]]
                in_grid(x, y) && reached(g@, x, y) && !(x == start.0 && y == start.1)
                implies parent@[cell_index(x, y)] is Some by {
                assert(cell_index(x, y) != cell_index(start.0 as int, start.1 as int));
            }
        }
        loop
            invariant
                self.wf(),
                cells == self.cells(),
                walkable(cells, start.0 as int, start.1 as int),
                walkable(cells, goal.0 as int, goal.1 as int),
                search_inv(cells, g@, parent@, closed@, n_closed as nat, start, goal),
            decreases NAV_CELLS - n_closed,
        {
            proof {
                lemma_count_true_bound(closed@);
            }
            let cur = match pick_open(&g, &closed, goal) {
                None => {
                    proof {
                        if reachable(cells, start, goal) {
                            let path = choose|path: Seq<(usize, usize)>|
                                is_cell_path(cells, path, start, goal);
                            lemma_route_reached(
                                cells,
                                g@,
                                closed@,
                                path,
                                start,
                                goal,
                                path.len() - 1,
                            );
                        }
                    }
                    return None;
                },
                Some(b) => b,
            };
            proof {
                assert forall|q: Seq<(usize, usize)>|
                    #[trigger] is_cell_path(cells, q, start, cur) implies g@[cell_index(
                    cur.0 as int,
                    cur.1 as int,
                )] <= path_cost(q) by {
                    lemma_picked_optimal(cells, g@, closed@, start, goal, cur, q);
                }
            }
            if cur.0 == goal.0 && cur.1 == goal.1 {
                let path = trace_route(&parent, &g, start, goal, Ghost(cells));
                return Some(path);
            }
            let (cx, cy) = cur;
            let ghost old_closed = closed@;
            let ghost old_g = g@;
            closed.set(cy * NAV_GRID_DIM + cx, true);
            proof {
                lemma_count_true_set(old_closed, cell_index(cx as int, cy as int));
            }
            n_closed = n_closed + 1;
            proof {
                lemma_count_true_bound(closed@);
            }
            let ghost old_parent = parent@;
            self.expand(&mut g, &mut parent, &closed, cx, cy, Ghost(n_closed as nat), Ghost(start));
            proof {
                lemma_expand_keeps_inv(
                    cells,
                    old_g,
                    old_parent,
                    old_closed,
                    g@,
                    parent@,
                    closed@,
                    n_closed as nat,
                    start,
                    goal,
                    cx,
                    cy,
                );
            }
        }
    }
}

/// Closing `(cx, cy)` and relaxing its neighbours keeps the search state sound.
#[verifier::spinoff_prover]
#[verifier::rlimit(40)]
proof fn lemma_expand_keeps_inv(
    cells: Seq<bool>,
    old_g: Seq<u32>,
    old_parent: Seq<Option<(usize, usize)>>,
    old_closed: Seq<bool>,
    g: Seq<u32>,
    parent: Seq<Option<(usize, usize)>>,
    closed: Seq<bool>,
    n_closed: nat,
    start: (usize, usize),
    goal: (usize, usize),
    cx: usize,
    cy: usize,
)
    requires
        search_inv(cells, old_g, old_parent, old_closed, (n_closed - 1) as nat, start, goal),
        n_closed >= 1,
        n_closed == count_true(closed),
        in_grid(cx as int, cy as int),
        !(cx == goal.0 && cy == goal.1),
        closed == old_closed.update(cell_index(cx as int, cy as int), true),
        g.len() == NAV_CELLS,
        parent.len() == NAV_CELLS,
        g[cell_index(start.0 as int, start.1 as int)] == 0,
        forall|x: int, y: int|
            #![trigger g[cell_index(x, y)]]
            in_grid(x, y) && reached(g, x, y) ==> walkable(cells, x, y) && g[cell_index(x, y)]
                <= 707 * n_closed,
        forall|x: int, y: int|
            #![trigger g[cell_index(x, y)]]
            in_grid(x, y) && reached(old_g, x, y) ==> reached(g, x, y),
        parents_ok(cells, g, parent),
        parents_cover(g, parent, start),
        reached(old_g, cx as int, cy as int),
        forall|ax: int, ay: int|
            #[trigger] valid_step(cells, cx as int, cy as int, ax, ay) ==> reached(g, ax, ay),
        forall|x: int, y: int|
            #![trigger closed[cell_index(x, y)]]
            in_grid(x, y) && closed[cell_index(x, y)] ==> g[cell_index(x, y)] == old_g[cell_index(
                x,
                y,
            )],
        forall|x: int, y: int|
            #![trigger g[cell_index(x, y)]]
            in_grid(x, y) ==> g[cell_index(x, y)] <= old_g[cell_index(x, y)],
        forall|ax: int, ay: int|
            #[trigger] valid_step(cells, cx as int, cy as int, ax, ay) && !closed[cell_index(ax, ay)]
                ==> g[cell_index(ax, ay)] <= old_g[cell_index(cx as int, cy as int)] + step_cost(
                cx as int,
                cy as int,
                ax,
                ay,
            ),
        forall|q: Seq<(usize, usize)>|
            #[trigger] is_cell_path(cells, q, start, (cx, cy)) ==> old_g[cell_index(
                cx as int,
                cy as int,
            )] <= path_cost(q),
    ensures
        search_inv(cells, g, parent, closed, n_closed, start, goal),
{
    assert forall|x: int, y: int|
        #![trigger closed[cell_index(x, y)]]
        in_grid(x, y) && closed[cell_index(x, y)] implies reached(g, x, y) by {
        if !(x == cx && y == cy) {
            assert(old_closed[cell_index(x, y)]);
        }
    }
    assert forall|x: int, y: int, ax: int, ay: int|
        #![trigger closed[cell_index(x, y)], valid_step(cells, x, y, ax, ay)]
        in_grid(x, y) && closed[cell_index(x, y)] && valid_step(cells, x, y, ax, ay) implies reached(
        g,
        ax,
        ay,
    ) by {
        if !(x == cx && y == cy) {
            assert(old_closed[cell_index(x, y)]);
            assert(reached(old_g, ax, ay));
            assert(in_grid(ax, ay));
        }
    }
    assert(cell_index(goal.0 as int, goal.1 as int) != cell_index(cx as int, cy as int));
    lemma_close_keeps_optimal(cells, old_g, old_closed, g, closed, start, cx, cy);
    lemma_close_keeps_relaxed(cells, old_g, old_closed, g, closed, cx, cy);
}

/// Closing `(cx, cy)` once no route to it costs less than its known cost keeps every closed
/// cell's cost optimal.
proof fn lemma_close_keeps_optimal(
    cells: Seq<bool>,
    old_g: Seq<u32>,
    old_closed: Seq<bool>,
    g: Seq<u32>,
    closed: Seq<bool>,
    start: (usize, usize),
    cx: usize,
    cy: usize,
)
    requires
        closed_optimal(cells, old_g, old_closed, start),
        in_grid(cx as int, cy as int),
        old_closed.len() == NAV_CELLS,
        closed == old_closed.update(cell_index(cx as int, cy as int), true),
        forall|x: int, y: int|
            #![trigger closed[cell_index(x, y)]]
            in_grid(x, y) && closed[cell_index(x, y)] ==> g[cell_index(x, y)] == old_g[cell_index(
                x,
                y,
            )],
        forall|q: Seq<(usize, usize)>|
            #[trigger] is_cell_path(cells, q, start, (cx, cy)) ==> old_g[cell_index(
                cx as int,
                cy as int,
            )] <= path_cost(q),
    ensures
        closed_optimal(cells, g, closed, start),
{
    assert forall|q: Seq<(usize, usize)>, c: (usize, usize)|
        #[trigger] is_cell_path(cells, q, start, c) && in_grid(c.0 as int, c.1 as int)
            && closed[cell_index(c.0 as int, c.1 as int)] implies g[cell_index(c.0 as int, c.1 as int)]
        <= path_cost(q) by {
        if !(c.0 == cx && c.1 == cy) {
            assert(old_closed[cell_index(c.0 as int, c.1 as int)]);
        } else {
            assert(c == (cx, cy));
        }
    }
}

/// Closing `(cx, cy)` after relaxing its steps keeps every step out of a closed cell relaxed.
proof fn lemma_close_keeps_relaxed(
    cells: Seq<bool>,
    old_g: Seq<u32>,
    old_closed: Seq<bool>,
    g: Seq<u32>,
    closed: Seq<bool>,
    cx: usize,
    cy: usize,
)
    requires
        closed_relaxed(cells, old_g, old_closed),
        in_grid(cx as int, cy as int),
        old_closed.len() == NAV_CELLS,
        closed == old_closed.update(cell_index(cx as int, cy as int), true),
        forall|x: int, y: int|
            #![trigger closed[cell_index(x, y)]]
            in_grid(x, y) && closed[cell_index(x, y)] ==> g[cell_index(x, y)] == old_g[cell_index(
                x,
                y,
            )],
        forall|x: int, y: int|
            #![trigger g[cell_index(x, y)]]
            in_grid(x, y) ==> g[cell_index(x, y)] <= old_g[cell_index(x, y)],
        forall|ax: int, ay: int|
            #[trigger] valid_step(cells, cx as int, cy as int, ax, ay) && !closed[cell_index(ax, ay)]
                ==> g[cell_index(ax, ay)] <= old_g[cell_index(cx as int, cy as int)] + step_cost(
                cx as int,
                cy as int,
                ax,
                ay,
            ),
    ensures
        closed_relaxed(cells, g, closed),
{
    assert forall|x: int, y: int, nx: int, ny: int|
        #![trigger closed[cell_index(x, y)], valid_step(cells, x, y, nx, ny)]
        in_grid(x, y) && closed[cell_index(x, y)] && valid_step(cells, x, y, nx, ny)
            && !closed[cell_index(nx, ny)] implies g[cell_index(nx, ny)] <= g[cell_index(x, y)]
        + step_cost(x, y, nx, ny) by {
        if !(x == cx && y == cy) {
            assert(old_closed[cell_index(x, y)]);
            assert(in_grid(nx, ny));
            assert(!old_closed[cell_index(nx, ny)]);
            assert(g[cell_index(nx, ny)] <= old_g[cell_index(nx, ny)]);
        }
    }
}

/// A sequence without `true` entries counts zero.
proof fn lemma_no_true_count(s: Seq<bool>)
    requires
        forall|k: int| 0 <= k < s.len() ==> !s[k],
    ensures
        count_true(s) == 0,
    decreases s.len(),
{
    if s.len() > 0 {
        lemma_no_true_count(s.drop_last());
    }
}

/// Lowering the cost of `(nx, ny)` to one step past `(cx, cy)` keeps the parent table sound.
#[verifier::spinoff_prover]
#[verifier::rlimit(40)]
proof fn lemma_relax_keeps(
    cells: Seq<bool>,
    old_g: Seq<u32>,
    old_parent: Seq<Option<(usize, usize)>>,
    g: Seq<u32>,
    parent: Seq<Option<(usize, usize)>>,
    cx: usize,
    cy: usize,
    nx: usize,
    ny: usize,
    start: (usize, usize),
)
    requires
        old_g.len() == NAV_CELLS,
        old_parent.len() == NAV_CELLS,
        in_grid(cx as int, cy as int),
        in_grid(nx as int, ny as int),
        reached(old_g, cx as int, cy as int),
        valid_step(cells, cx as int, cy as int, nx as int, ny as int),
        g == old_g.update(cell_index(nx as int, ny as int), g[cell_index(nx as int, ny as int)]),
        g[cell_index(nx as int, ny as int)] < old_g[cell_index(nx as int, ny as int)],
        old_g[cell_index(cx as int, cy as int)] + step_cost(cx as int, cy as int, nx as int, ny as int)
            == g[cell_index(nx as int, ny as int)],
        parent == old_parent.update(cell_index(nx as int, ny as int), Some((cx, cy))),
        parents_ok(cells, old_g, old_parent),
        parents_cover(old_g, old_parent, start),
    ensures
        parents_ok(cells, g, parent),
        parents_cover(g, parent, start),
{
    assert forall|x: int, y: int|
        #![trigger parent[cell_index(x, y)]]
        in_grid(x, y) && parent[cell_index(x, y)] is Some implies {
        let p = parent[cell_index(x, y)]->Some_0;
        &&& reached(g, x, y)
        &&& in_grid(p.0 as int, p.1 as int)
        &&& reached(g, p.0 as int, p.1 as int)
        &&& g[cell_index(p.0 as int, p.1 as int)] + step_cost(p.0 as int, p.1 as int, x, y)
            <= g[cell_index(x, y)]
        &&& valid_step(cells, p.0 as int, p.1 as int, x, y)
    } by {
        if cell_index(x, y) != cell_index(nx as int, ny as int) {
            assert(old_parent[cell_index(x, y)] is Some);
            let p = old_parent[cell_index(x, y)]->Some_0;
            assert(in_grid(p.0 as int, p.1 as int));
        } else {
            assert(x == nx && y == ny);
        }
    }
    assert forall|x: int, y: int|
        #![trigger g[cell_index(x, y)]]
        in_grid(x, y) && reached(g, x, y) && !(x == start.0 && y == start.1)
        implies parent[cell_index(x, y)] is Some by {
        if cell_index(x, y) != cell_index(nx as int, ny as int) {
            assert(old_g[cell_index(x, y)] == g[cell_index(x, y)]);
        }
    }
}

} // verus!
