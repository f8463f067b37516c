use mini_rts::navgrid::NavGrid;
use mini_rts::route::string_pull;

fn is_step(a: (usize, usize), b: (usize, usize)) -> bool {
    let dx = a.0 as i64 - b.0 as i64;
    let dy = a.1 as i64 - b.1 as i64;
    dx.abs() <= 1 && dy.abs() <= 1 && (dx != 0 || dy != 0)
}

#[test]
fn empty_grid_has_no_blocked_cell() {
    let nav = NavGrid::new();
    assert!(!nav.is_blocked(0, 0));
    assert!(!nav.is_blocked(63, 63));
    assert!(nav.is_blocked(64, 0), "cells off the grid count as blocked");
    assert!(nav.is_blocked(0, 64));
}

#[test]
fn set_then_read_and_clear() {
    let mut nav = NavGrid::new();
    nav.set_blocked(10, 20, true);
    assert!(nav.is_blocked(10, 20));
    assert!(!nav.is_blocked(20, 10));
    nav.set_blocked(100, 100, true);
    nav.set_blocked(10, 20, false);
    assert!(!nav.is_blocked(10, 20));
    nav.set_blocked(3, 3, true);
    nav.clear();
    assert!(!nav.is_blocked(3, 3));
}

#[test]
fn straight_route_on_open_grid() {
    let nav = NavGrid::new();
    let path = nav.find_cell_path((28, 28), (36, 36)).expect("open grid");
    assert_eq!(path.first(), Some(&(28, 28)));
    assert_eq!(path.last(), Some(&(36, 36)));
    // The optimal route takes eight diagonal steps.
    assert_eq!(path.len(), 9);
    for w in path.windows(2) {
        assert!(is_step(w[0], w[1]));
    }
}

#[test]
fn route_goes_around_a_wall() {
    let mut nav = NavGrid::new();
    for y in 20..=44 {
        nav.set_blocked(32, y, true);
    }
    let path = nav.find_cell_path((26, 32), (38, 32)).expect("a way around exists");
    assert!(path.len() >= 2);
    assert_eq!(path[0], (26, 32));
    assert_eq!(*path.last().unwrap(), (38, 32));
    for &(x, y) in &path {
        assert!(!nav.is_blocked(x, y), "waypoint should not be blocked");
    }
    for w in path.windows(2) {
        assert!(is_step(w[0], w[1]));
        // no corner cutting on diagonals
        if w[0].0 != w[1].0 && w[0].1 != w[1].1 {
            assert!(!nav.is_blocked(w[0].0, w[1].1));
            assert!(!nav.is_blocked(w[1].0, w[0].1));
        }
    }
}

#[test]
fn no_route_into_an_enclosure() {
    let mut nav = NavGrid::new();
    for x in 9..=11 {
        for y in 9..=11 {
            if !(x == 10 && y == 10) {
                nav.set_blocked(x, y, true);
            }
        }
    }
    assert!(nav.find_cell_path((0, 0), (10, 10)).is_none());
    assert!(nav.find_cell_path((0, 0), (9, 9)).is_none(), "blocked goal");
    assert!(nav.find_cell_path((70, 0), (1, 1)).is_none(), "start off the grid");
    let same = nav.find_cell_path((10, 10), (10, 10)).unwrap();
    assert_eq!(same, vec![(10, 10)]);
}

#[test]
fn diagonal_squeeze_between_two_blocks_is_refused() {
    let mut nav = NavGrid::new();
    // Only a diagonal gap leads from (0,0) into the rest; it cuts corners.
    nav.set_blocked(1, 0, true);
    nav.set_blocked(0, 1, true);
    assert!(nav.find_cell_path((0, 0), (5, 5)).is_none());
}

#[test]
fn nearest_walkable_search_order() {
    let mut nav = NavGrid::new();
    assert_eq!(nav.find_nearest_walkable(5, 5), Some((5, 5)));
    nav.set_blocked(5, 5, true);
    // First ring, first row (dy = -1), first column (dx = -1).
    assert_eq!(nav.find_nearest_walkable(5, 5), Some((4, 4)));
    nav.set_blocked(4, 4, true);
    assert_eq!(nav.find_nearest_walkable(5, 5), Some((5, 4)));
    // Off the grid corner: the ring reaches back in.
    assert_eq!(nav.find_nearest_walkable(64, 64), Some((63, 63)));
    assert_eq!(nav.find_nearest_walkable(80, 80), None);
}

#[test]
fn nearest_walkable_gives_up_after_seven_rings() {
    let mut nav = NavGrid::new();
    for x in 0..64 {
        for y in 0..64 {
            if x.max(y) <= 7 {
                nav.set_blocked(x, y, true);
            }
        }
    }
    assert_eq!(nav.find_nearest_walkable(0, 0), None);
    nav.set_blocked(7, 7, false);
    assert_eq!(nav.find_nearest_walkable(0, 0), Some((7, 7)));
}

#[test]
fn plan_route_snaps_blocked_ends() {
    let mut nav = NavGrid::new();
    nav.set_blocked(10, 10, true);
    let route = nav.plan_route((10, 10), (14, 10)).expect("route between snapped cells");
    assert_eq!(route[0], (9, 9));
    assert_eq!(*route.last().unwrap(), (14, 10));
    assert!(nav.plan_route((3, 3), (3, 3)).is_none(), "same cell: head straight on");
}

#[test]
fn string_pull_keeps_only_needed_points() {
    let n = 5;
    let mut clear = vec![vec![false; n]; n];
    // 0 sees 1, 2, 3; 3 sees 4.
    clear[0][2] = true;
    clear[0][3] = true;
    clear[3][4] = true;
    let anchors = string_pull(n, &clear);
    assert_eq!(anchors, vec![0, 3, 4]);

    let none = vec![vec![false; n]; n];
    assert_eq!(string_pull(n, &none), vec![0, 1, 2, 3, 4]);
    assert_eq!(string_pull(1, &vec![vec![false]]), vec![0]);
}

fn route_cost(path: &[(usize, usize)]) -> u32 {
    path.windows(2)
        .map(|w| if w[0].0 != w[1].0 && w[0].1 != w[1].1 { 707 } else { 500 })
        .sum()
}

#[test]
fn route_around_a_single_block_is_cheapest() {
    let mut nav = NavGrid::new();
    nav.set_blocked(2, 0, true);
    let path = nav.find_cell_path((0, 0), (4, 0)).expect("a way around exists");
    // One diagonal up, two straight steps, one diagonal down.
    assert_eq!(route_cost(&path), 2414);
    assert_eq!(path.len(), 5);
}

#[test]
fn open_grid_route_costs_the_octile_distance() {
    let nav = NavGrid::new();
    let path = nav.find_cell_path((10, 10), (20, 14)).expect("open grid");
    // Four diagonal steps and six straight ones.
    assert_eq!(route_cost(&path), 4 * 707 + 6 * 500);
}
