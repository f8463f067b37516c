use vstd::prelude::*;
use crate::navgrid::{reachable, NavGrid};
use crate::pathfind::is_cheapest_path;
use crate::nearest::is_nearest_walkable;

verus! {

/// What route planning yields between the snapped start cell `s` and the snapped goal cell `t`:
/// a cheapest cell route from `s` to `t` when both exist, differ and are connected; otherwise
/// no route (the unit then heads straight for its goal).
pub open spec fn route_outcome(
    cells: Seq<bool>,
    s: Option<(usize, usize)>,
    t: Option<(usize, usize)>,
    res: Option<Vec<(usize, usize)>>,
) -> bool {
    match (s, t) {
        (Some(a), Some(b)) => if a != b && reachable(cells, a, b) {
            res matches Some(p) && is_cheapest_path(cells, p@, a, b)
        } else {
            res is None
        },
        _ => res is None,
    }
}

impl NavGrid {
    /// Snaps both cells to their nearest walkable cell and searches a route between them.
    pub fn plan_route(&self, start: (usize, usize), goal: (usize, usize)) -> (res: Option<
        Vec<(usize, usize)>,
    >)
        requires
            self.wf(),
        ensures
            exists|s: Option<(usize, usize)>, t: Option<(usize, usize)>|
                is_nearest_walkable(self.cells(), start.0 as int, start.1 as int, s)
                    && is_nearest_walkable(self.cells(), goal.0 as int, goal.1 as int, t)
                    && route_outcome(self.cells(), s, t, res),
    {
        let s = self.find_nearest_walkable(start.0, start.1);
        let t = self.find_nearest_walkable(goal.0, goal.1);
        let res = match (s, t) {
            (Some(a), Some(b)) => {
                if a.0 == b.0 && a.1 == b.1 {
                    None
                } else {
                    self.find_cell_path(a, b)
                }
            },
            _ => None,
        };
        proof {
            assert(route_outcome(self.cells(), s, t, res));
        }
        res
    }
}

/// Index of the farthest point among `a + 2 ..= hi` that `a` sees directly, or `a + 1`.
pub open spec fn farthest_clear(clear: Seq<Seq<bool>>, a: int, hi: int) -> int
    decreases hi - a,
{
    if hi < a + 2 {
        a + 1
    } else if clear[a][hi] {
        hi
    } else {
        farthest_clear(clear, a, hi - 1)
    }
}

/// `anchors` is the result of string pulling over `n` points: it starts at the first point,
/// ends at the last, and each anchor is followed by the farthest later point it sees directly.
pub open spec fn is_pulled(clear: Seq<Seq<bool>>, n: int, anchors: Seq<usize>) -> bool {
    &&& anchors.len() >= 1
    &&& anchors[0] == 0
    &&& anchors[anchors.len() - 1] == n - 1
    &&& forall|k: int|
        0 <= k < anchors.len() - 1 ==> #[trigger] anchors[k + 1] == farthest_clear(
            clear,
            anchors[k] as int,
            n - 1,
        )
}

/// Line-of-sight shortcutting over `n` waypoints: `clear[i][j]` tells whether waypoint `j` is
/// directly visible from waypoint `i`. Returns the indices of the waypoints that are kept.
pub fn string_pull(n: usize, clear: &Vec<Vec<bool>>) -> (anchors: Vec<usize>)
    requires
        n >= 1,
        clear@.len() == n,
        forall|i: int| 0 <= i < n ==> (#[trigger] clear@[i])@.len() == n,
    ensures
        is_pulled(clear@.map_values(|row: Vec<bool>| row@), n as int, anchors@),
{
    let ghost vis = clear@.map_values(|row: Vec<bool>| row@);
    let mut anchors: Vec<usize> = Vec::new();
    anchors.push(0);
    let mut anchor: usize = 0;
    while anchor < n - 1
        invariant
            n >= 1,
            anchor < n,
            clear@.len() == n,
            forall|i: int| 0 <= i < n ==> (#[trigger] clear@[i])@.len() == n,
            vis == clear@.map_values(|row: Vec<bool>| row@),
            anchors@.len() >= 1,
            anchors@[0] == 0,
            anchors@[anchors@.len() - 1] == anchor,
            forall|k: int|
                0 <= k < anchors@.len() - 1 ==> #[trigger] anchors@[k + 1] == farthest_clear(
                    vis,
                    anchors@[k] as int,
                    n - 1,
                ),
        decreases n - anchor,
    {
        let mut furthest = anchor + 1;
        let mut j = anchor + 2;
        while j < n
            invariant
                anchor + 2 <= j <= n,
                anchor < n - 1,
                clear@.len() == n,
                forall|i: int| 0 <= i < n ==> (#[trigger] clear@[i])@.len() == n,
                vis == clear@.map_values(|row: Vec<bool>| row@),
                furthest == farthest_clear(vis, anchor as int, j - 1),
            decreases n - j,
        {
            if clear[anchor][j] {
                furthest = j;
            }
            j = j + 1;
        }
        let ghost old_anchors = anchors@;
        anchors.push(furthest);
        proof {
            assert forall|k: int|
                0 <= k < anchors@.len() - 1 implies #[trigger] anchors@[k + 1] == farthest_clear(
                vis,
                anchors@[k] as int,
                n - 1,
            ) by {
                if k < old_anchors.len() - 1 {
                    assert(old_anchors[k + 1] == anchors@[k + 1]);
                }
            }
            lemma_farthest_clear_range(vis, anchor as int, n - 1);
        }
        anchor = furthest;
    }
    anchors
}

proof fn lemma_farthest_clear_range(clear: Seq<Seq<bool>>, a: int, hi: int)
    requires
        a + 1 <= hi,
    ensures
        a < farthest_clear(clear, a, hi) <= hi,
    decreases hi - a,
{
    if hi >= a + 2 && !clear[a][hi] {
        lemma_farthest_clear_range(clear, a, hi - 1);
    }
}

/// String pulling keeps waypoints in order: each kept index lies beyond the one before it.
pub proof fn law_pulled_increasing(clear: Seq<Seq<bool>>, n: int, anchors: Seq<usize>, k: int)
    requires
        is_pulled(clear, n, anchors),
        0 <= k < anchors.len() - 1,
        anchors[k] < n - 1,
    ensures
        anchors[k] < anchors[k + 1],
{
    lemma_farthest_clear_range(clear, anchors[k] as int, n - 1);
}

} // verus!
