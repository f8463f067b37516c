use mini_rts::map::{
    contested_east_minerals, contested_west_minerals, overlaps_static_obstacle,
    p1_main_minerals, p1_natural_expansion_minerals, p1_starter_workers, p2_main_minerals,
    p2_natural_expansion_minerals, p2_starter_workers, static_map_obstacles, P1_BASE_X, P1_BASE_Y,
    P2_BASE_X, P2_BASE_Y,
};

fn neg(p: (i32, i32)) -> (i32, i32) {
    (-p.0, -p.1)
}

#[test]
fn test_base_and_mineral_symmetry() {
    assert_eq!((P1_BASE_X, P1_BASE_Y), neg((P2_BASE_X, P2_BASE_Y)));
    for (p1, p2) in p1_main_minerals().iter().zip(p2_main_minerals().iter()) {
        assert_eq!(*p1, neg(*p2), "Mineral nodes must be 180° rotationally symmetric");
    }
    for (p1, p2) in p1_starter_workers().iter().zip(p2_starter_workers().iter()) {
        assert_eq!(*p1, neg(*p2), "Worker spawns must be 180° rotationally symmetric");
    }
    for (p1, p2) in p1_natural_expansion_minerals().iter().zip(p2_natural_expansion_minerals().iter()) {
        assert_eq!(*p1, neg(*p2), "Expansion minerals must be 180° rotationally symmetric");
    }
    for (w, e) in contested_west_minerals().iter().zip(contested_east_minerals().iter()) {
        assert_eq!(*w, neg(*e), "Contested minerals must be 180° rotationally symmetric");
    }
}

#[test]
fn test_obstacle_180_degree_symmetry() {
    let obstacles = static_map_obstacles();
    for obs in &obstacles {
        let found = obstacles.iter().any(|o| {
            o.x == -obs.x && o.y == -obs.y && o.radius == obs.radius && o.kind == obs.kind
        });
        assert!(found, "Obstacle at ({}, {}) (radius: {}) must have a mirrored counter-part", obs.x, obs.y, obs.radius);
    }
}

#[test]
fn test_minerals_and_bases_have_unobstructed_clearance() {
    assert!(!overlaps_static_obstacle(P1_BASE_X, P1_BASE_Y, 60, 0), "P1 Base HQ must not overlap obstacles");
    assert!(!overlaps_static_obstacle(P2_BASE_X, P2_BASE_Y, 60, 0), "P2 Base HQ must not overlap obstacles");
    for list in [
        p1_main_minerals(),
        p2_main_minerals(),
        p1_natural_expansion_minerals(),
        p2_natural_expansion_minerals(),
        contested_west_minerals(),
        contested_east_minerals(),
    ] {
        for (x, y) in list {
            assert!(!overlaps_static_obstacle(x, y, 32, 0), "mineral node ({}, {}) must not overlap obstacles", x, y);
        }
    }
}

#[test]
fn footprint_on_an_obstacle_overlaps() {
    // Central monolith at (240, 0), radius 80.
    assert!(overlaps_static_obstacle(240, 0, 1, 0));
    // Exactly touching: distance 100 == 80 + 20 is not an overlap.
    assert!(!overlaps_static_obstacle(340, 0, 20, 0));
    assert!(overlaps_static_obstacle(340, 0, 20, 1));
    assert_eq!(static_map_obstacles().len(), 26);
}

#[test]
fn obstacle_test_is_mirrored_and_grows_with_radius() {
    // 100 units east of the rock monolith at (240, 0), reach 80 + 10 + 4 = 94: clear.
    assert!(!overlaps_static_obstacle(340, 0, 10, 4));
    assert!(!overlaps_static_obstacle(-340, 0, 10, 4));
    // With a radius of 20 the reach is 104 > 100: blocked on both sides of the half turn.
    assert!(overlaps_static_obstacle(340, 0, 20, 4));
    assert!(overlaps_static_obstacle(-340, 0, 20, 4));
    assert!(overlaps_static_obstacle(-340, 0, 200, 4));
}
