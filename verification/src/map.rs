use vstd::prelude::*;

verus! {

/// Kind of a static obstacle of the map.
#[derive(Debug, Clone, Copy, PartialEq, Eq, Hash, Structural)]
pub enum ObstacleKind {
    RockMonolith,
    CliffRidge,
    BaseRampBluff,
}

/// A round static obstacle; the map places every obstacle on whole world units.
#[derive(Debug, Clone, Copy, PartialEq, Eq, Structural)]
pub struct MapObstacle {
    pub x: i32,
    pub y: i32,
    pub radius: u32,
    pub kind: ObstacleKind,
}

/// The obstacles of the 1v1 map "Iron Meridian", which is symmetric under the half turn
/// `(x, y) -> (-x, -y)`.
pub open spec fn obstacle_table() -> Seq<MapObstacle> {
    seq![
        MapObstacle { x: -200i32, y: -1320i32, radius: 80, kind: ObstacleKind::CliffRidge },
        MapObstacle { x: 0i32, y: -1340i32, radius: 80, kind: ObstacleKind::CliffRidge },
        MapObstacle { x: 200i32, y: -1320i32, radius: 80, kind: ObstacleKind::CliffRidge },
        MapObstacle { x: 200i32, y: 1320i32, radius: 80, kind: ObstacleKind::CliffRidge },
        MapObstacle { x: 0i32, y: 1340i32, radius: 80, kind: ObstacleKind::CliffRidge },
        MapObstacle { x: -200i32, y: 1320i32, radius: 80, kind: ObstacleKind::CliffRidge },
        MapObstacle { x: -240i32, y: -720i32, radius: 75, kind: ObstacleKind::BaseRampBluff },
        MapObstacle { x: -360i32, y: -750i32, radius: 80, kind: ObstacleKind::BaseRampBluff },
        MapObstacle { x: 240i32, y: -720i32, radius: 75, kind: ObstacleKind::BaseRampBluff },
        MapObstacle { x: 360i32, y: -750i32, radius: 80, kind: ObstacleKind::BaseRampBluff },
        MapObstacle { x: 240i32, y: 720i32, radius: 75, kind: ObstacleKind::BaseRampBluff },
        MapObstacle { x: 360i32, y: 750i32, radius: 80, kind: ObstacleKind::BaseRampBluff },
        MapObstacle { x: -240i32, y: 720i32, radius: 75, kind: ObstacleKind::BaseRampBluff },
        MapObstacle { x: -360i32, y: 750i32, radius: 80, kind: ObstacleKind::BaseRampBluff },
        MapObstacle { x: 1080i32, y: -780i32, radius: 75, kind: ObstacleKind::CliffRidge },
        MapObstacle { x: 1120i32, y: -650i32, radius: 75, kind: ObstacleKind::CliffRidge },
        MapObstacle { x: -1080i32, y: 780i32, radius: 75, kind: ObstacleKind::CliffRidge },
        MapObstacle { x: -1120i32, y: 650i32, radius: 75, kind: ObstacleKind::CliffRidge },
        MapObstacle { x: -1400i32, y: 0i32, radius: 85, kind: ObstacleKind::CliffRidge },
        MapObstacle { x: 1400i32, y: 0i32, radius: 85, kind: ObstacleKind::CliffRidge },
        MapObstacle { x: -240i32, y: 0i32, radius: 80, kind: ObstacleKind::RockMonolith },
        MapObstacle { x: 240i32, y: 0i32, radius: 80, kind: ObstacleKind::RockMonolith },
        MapObstacle { x: -600i32, y: -250i32, radius: 75, kind: ObstacleKind::CliffRidge },
        MapObstacle { x: 600i32, y: 250i32, radius: 75, kind: ObstacleKind::CliffRidge },
        MapObstacle { x: 600i32, y: -250i32, radius: 75, kind: ObstacleKind::CliffRidge },
        MapObstacle { x: -600i32, y: 250i32, radius: 75, kind: ObstacleKind::CliffRidge },
    ]
}

/// Where Player 1's two starting workers stand.
pub open spec fn p1_starter_workers_spec() -> Seq<(i32, i32)> {
    seq![(-45i32, -920i32), (45i32, -920i32)]
}

/// Where Player 2's two starting workers stand.
pub open spec fn p2_starter_workers_spec() -> Seq<(i32, i32)> {
    seq![(45i32, 920i32), (-45i32, 920i32)]
}

/// Player 1's main mineral fields.
pub open spec fn p1_main_minerals_spec() -> Seq<(i32, i32)> {
    seq![(-110i32, -1180i32), (0i32, -1200i32), (110i32, -1180i32)]
}

/// Player 2's main mineral fields.
pub open spec fn p2_main_minerals_spec() -> Seq<(i32, i32)> {
    seq![(110i32, 1180i32), (0i32, 1200i32), (-110i32, 1180i32)]
}

/// Player 1's natural expansion mineral fields.
pub open spec fn p1_natural_minerals_spec() -> Seq<(i32, i32)> {
    seq![(880i32, -750i32), (960i32, -680i32)]
}

/// Player 2's natural expansion mineral fields.
pub open spec fn p2_natural_minerals_spec() -> Seq<(i32, i32)> {
    seq![(-880i32, 750i32), (-960i32, 680i32)]
}

/// The contested western mineral fields.
pub open spec fn contested_west_minerals_spec() -> Seq<(i32, i32)> {
    seq![(-1250i32, -50i32), (-1250i32, 50i32)]
}

/// The contested eastern mineral fields.
pub open spec fn contested_east_minerals_spec() -> Seq<(i32, i32)> {
    seq![(1250i32, 50i32), (1250i32, -50i32)]
}

/// Where Player 1's two starting workers stand.
pub fn p1_starter_workers() -> (v: Vec<(i32, i32)>)
    ensures
        v@ == p1_starter_workers_spec(),
{
    let mut v: Vec<(i32, i32)> = Vec::new();
    v.push((-45, -920));
    v.push((45, -920));
    proof {
        assert(v@ =~= p1_starter_workers_spec());
    }
    v
}

/// Where Player 2's two starting workers stand.
pub fn p2_starter_workers() -> (v: Vec<(i32, i32)>)
    ensures
        v@ == p2_starter_workers_spec(),
{
    let mut v: Vec<(i32, i32)> = Vec::new();
    v.push((45, 920));
    v.push((-45, 920));
    proof {
        assert(v@ =~= p2_starter_workers_spec());
    }
    v
}

/// Player 1's main mineral fields.
pub fn p1_main_minerals() -> (v: Vec<(i32, i32)>)
    ensures
        v@ == p1_main_minerals_spec(),
{
    let mut v: Vec<(i32, i32)> = Vec::new();
    v.push((-110, -1180));
    v.push((0, -1200));
    v.push((110, -1180));
    proof {
        assert(v@ =~= p1_main_minerals_spec());
    }
    v
}

/// Player 2's main mineral fields.
pub fn p2_main_minerals() -> (v: Vec<(i32, i32)>)
    ensures
        v@ == p2_main_minerals_spec(),
{
    let mut v: Vec<(i32, i32)> = Vec::new();
    v.push((110, 1180));
    v.push((0, 1200));
    v.push((-110, 1180));
    proof {
        assert(v@ =~= p2_main_minerals_spec());
    }
    v
}

/// Player 1's natural expansion mineral fields.
pub fn p1_natural_expansion_minerals() -> (v: Vec<(i32, i32)>)
    ensures
        v@ == p1_natural_minerals_spec(),
{
    let mut v: Vec<(i32, i32)> = Vec::new();
    v.push((880, -750));
    v.push((960, -680));
    proof {
        assert(v@ =~= p1_natural_minerals_spec());
    }
    v
}

/// Player 2's natural expansion mineral fields.
pub fn p2_natural_expansion_minerals() -> (v: Vec<(i32, i32)>)
    ensures
        v@ == p2_natural_minerals_spec(),
{
    let mut v: Vec<(i32, i32)> = Vec::new();
    v.push((-880, 750));
    v.push((-960, 680));
    proof {
        assert(v@ =~= p2_natural_minerals_spec());
    }
    v
}

/// The contested western mineral fields.
pub fn contested_west_minerals() -> (v: Vec<(i32, i32)>)
    ensures
        v@ == contested_west_minerals_spec(),
{
    let mut v: Vec<(i32, i32)> = Vec::new();
    v.push((-1250, -50));
    v.push((-1250, 50));
    proof {
        assert(v@ =~= contested_west_minerals_spec());
    }
    v
}

/// The contested eastern mineral fields.
pub fn contested_east_minerals() -> (v: Vec<(i32, i32)>)
    ensures
        v@ == contested_east_minerals_spec(),
{
    let mut v: Vec<(i32, i32)> = Vec::new();
    v.push((1250, 50));
    v.push((1250, -50));
    proof {
        assert(v@ =~= contested_east_minerals_spec());
    }
    v
}

/// Position of Player 1's headquarters.
pub const P1_BASE_X: i32 = 0;
pub const P1_BASE_Y: i32 = -1000;

/// Position of Player 2's headquarters.
pub const P2_BASE_X: i32 = 0;
pub const P2_BASE_Y: i32 = 1000;

/// The static obstacles of the map.
pub fn static_map_obstacles() -> (v: Vec<MapObstacle>)
    ensures
        v@ == obstacle_table(),
{
    let mut v: Vec<MapObstacle> = Vec::new();
    v.push(MapObstacle { x: -200, y: -1320, radius: 80, kind: ObstacleKind::CliffRidge });
    v.push(MapObstacle { x: 0, y: -1340, radius: 80, kind: ObstacleKind::CliffRidge });
    v.push(MapObstacle { x: 200, y: -1320, radius: 80, kind: ObstacleKind::CliffRidge });
    v.push(MapObstacle { x: 200, y: 1320, radius: 80, kind: ObstacleKind::CliffRidge });
    v.push(MapObstacle { x: 0, y: 1340, radius: 80, kind: ObstacleKind::CliffRidge });
    v.push(MapObstacle { x: -200, y: 1320, radius: 80, kind: ObstacleKind::CliffRidge });
    v.push(MapObstacle { x: -240, y: -720, radius: 75, kind: ObstacleKind::BaseRampBluff });
    v.push(MapObstacle { x: -360, y: -750, radius: 80, kind: ObstacleKind::BaseRampBluff });
    v.push(MapObstacle { x: 240, y: -720, radius: 75, kind: ObstacleKind::BaseRampBluff });
    v.push(MapObstacle { x: 360, y: -750, radius: 80, kind: ObstacleKind::BaseRampBluff });
    v.push(MapObstacle { x: 240, y: 720, radius: 75, kind: ObstacleKind::BaseRampBluff });
    v.push(MapObstacle { x: 360, y: 750, radius: 80, kind: ObstacleKind::BaseRampBluff });
    v.push(MapObstacle { x: -240, y: 720, radius: 75, kind: ObstacleKind::BaseRampBluff });
    v.push(MapObstacle { x: -360, y: 750, radius: 80, kind: ObstacleKind::BaseRampBluff });
    v.push(MapObstacle { x: 1080, y: -780, radius: 75, kind: ObstacleKind::CliffRidge });
    v.push(MapObstacle { x: 1120, y: -650, radius: 75, kind: ObstacleKind::CliffRidge });
    v.push(MapObstacle { x: -1080, y: 780, radius: 75, kind: ObstacleKind::CliffRidge });
    v.push(MapObstacle { x: -1120, y: 650, radius: 75, kind: ObstacleKind::CliffRidge });
    v.push(MapObstacle { x: -1400, y: 0, radius: 85, kind: ObstacleKind::CliffRidge });
    v.push(MapObstacle { x: 1400, y: 0, radius: 85, kind: ObstacleKind::CliffRidge });
    v.push(MapObstacle { x: -240, y: 0, radius: 80, kind: ObstacleKind::RockMonolith });
    v.push(MapObstacle { x: 240, y: 0, radius: 80, kind: ObstacleKind::RockMonolith });
    v.push(MapObstacle { x: -600, y: -250, radius: 75, kind: ObstacleKind::CliffRidge });
    v.push(MapObstacle { x: 600, y: 250, radius: 75, kind: ObstacleKind::CliffRidge });
    v.push(MapObstacle { x: 600, y: -250, radius: 75, kind: ObstacleKind::CliffRidge });
    v.push(MapObstacle { x: -600, y: 250, radius: 75, kind: ObstacleKind::CliffRidge });
    proof {
        assert(v@ =~= obstacle_table());
    }
    v
}

/// The obstacle mirrored by the half turn.
pub open spec fn mirrored(o: MapObstacle) -> MapObstacle {
    MapObstacle { x: (-o.x) as i32, y: (-o.y) as i32, ..o }
}

/// The circle of `o` comes closer than `reach` to `(x, y)`.
pub open spec fn within_reach(o: MapObstacle, x: int, y: int, reach: int) -> bool {
    (x - o.x) * (x - o.x) + (y - o.y) * (y - o.y) < reach * reach
}

/// A round footprint of `radius` at `(x, y)` comes within `margin` of some static obstacle.
pub open spec fn overlaps_obstacles(x: int, y: int, radius: int, margin: int) -> bool {
    exists|i: int|
        0 <= i < obstacle_table().len() && #[trigger] within_reach(
            obstacle_table()[i],
            x,
            y,
            radius + obstacle_table()[i].radius + margin,
        )
}

/// Whether a round footprint of `radius` at `(x, y)` comes within `margin` of a static obstacle.
pub fn overlaps_static_obstacle(x: i32, y: i32, radius: u32, margin: u32) -> (res: bool)
    ensures
        res == overlaps_obstacles(x as int, y as int, radius as int, margin as int),
{
    let obstacles = static_map_obstacles();
    let mut i: usize = 0;
    while i < obstacles.len()
        invariant
            i <= obstacles@.len(),
            obstacles@ == obstacle_table(),
            forall|k: int|
                0 <= k < i ==> !#[trigger] within_reach(
                    obstacle_table()[k],
                    x as int,
                    y as int,
                    radius + obstacle_table()[k].radius + margin,
                ),
        decreases obstacles@.len() - i,
    {
        let o = obstacles[i];
        let dx: i128 = x as i128 - o.x as i128;
        let dy: i128 = y as i128 - o.y as i128;
        let reach: i128 = radius as i128 + o.radius as i128 + margin as i128;
        assert(0 <= dx * dx <= 0x1_0000_0000_0000_0000) by (nonlinear_arith)
            requires
                -0x1_0000_0000 <= dx <= 0x1_0000_0000,
        ;
        assert(0 <= dy * dy <= 0x1_0000_0000_0000_0000) by (nonlinear_arith)
            requires
                -0x1_0000_0000 <= dy <= 0x1_0000_0000,
        ;
        assert(reach * reach <= 0x10_0000_0000_0000_0000) by (nonlinear_arith)
            requires
                0 <= reach <= 0x4_0000_0000,
        ;
        let dx2: i128 = dx * dx;
        let dy2: i128 = dy * dy;
        let reach2: i128 = reach * reach;
        if dx2 + dy2 < reach2 {
            assert(within_reach(
                obstacle_table()[i as int],
                x as int,
                y as int,
                radius + obstacle_table()[i as int].radius + margin,
            ));
            return true;
        }
        i = i + 1;
    }
    false
}

/// Index of the mirror image of obstacle `i`.
pub open spec fn mirror_index(i: int) -> int {
    if i == 0 {
        3
    } else if i == 1 {
        4
    } else if i == 2 {
        5
    } else if i == 3 {
        0
    } else if i == 4 {
        1
    } else if i == 5 {
        2
    } else if i == 6 {
        10
    } else if i == 7 {
        11
    } else if i == 8 {
        12
    } else if i == 9 {
        13
    } else if i == 10 {
        6
    } else if i == 11 {
        7
    } else if i == 12 {
        8
    } else if i == 13 {
        9
    } else if i == 14 {
        16
    } else if i == 15 {
        17
    } else if i == 16 {
        14
    } else if i == 17 {
        15
    } else if i == 18 {
        19
    } else if i == 19 {
        18
    } else if i == 20 {
        21
    } else if i == 21 {
        20
    } else if i == 22 {
        23
    } else if i == 23 {
        22
    } else if i == 24 {
        25
    } else {
        24
    }
}

/// Every static obstacle has its mirror image under the half turn, of the same size and kind.
pub proof fn law_obstacles_mirrored()
    ensures
        obstacle_table().len() == 26,
        forall|i: int|
            0 <= i < 26 ==> 0 <= #[trigger] mirror_index(i) < 26 && obstacle_table()[mirror_index(i)]
                == mirrored(obstacle_table()[i]),
{
    let t = obstacle_table();
    assert(t[0] == MapObstacle { x: -200i32, y: -1320i32, radius: 80, kind: ObstacleKind::CliffRidge });
    assert(t[1] == MapObstacle { x: 0i32, y: -1340i32, radius: 80, kind: ObstacleKind::CliffRidge });
    assert(t[2] == MapObstacle { x: 200i32, y: -1320i32, radius: 80, kind: ObstacleKind::CliffRidge });
    assert(t[3] == MapObstacle { x: 200i32, y: 1320i32, radius: 80, kind: ObstacleKind::CliffRidge });
    assert(t[4] == MapObstacle { x: 0i32, y: 1340i32, radius: 80, kind: ObstacleKind::CliffRidge });
    assert(t[5] == MapObstacle { x: -200i32, y: 1320i32, radius: 80, kind: ObstacleKind::CliffRidge });
    assert(t[6] == MapObstacle { x: -240i32, y: -720i32, radius: 75, kind: ObstacleKind::BaseRampBluff });
    assert(t[7] == MapObstacle { x: -360i32, y: -750i32, radius: 80, kind: ObstacleKind::BaseRampBluff });
    assert(t[8] == MapObstacle { x: 240i32, y: -720i32, radius: 75, kind: ObstacleKind::BaseRampBluff });
    assert(t[9] == MapObstacle { x: 360i32, y: -750i32, radius: 80, kind: ObstacleKind::BaseRampBluff });
    assert(t[10] == MapObstacle { x: 240i32, y: 720i32, radius: 75, kind: ObstacleKind::BaseRampBluff });
    assert(t[11] == MapObstacle { x: 360i32, y: 750i32, radius: 80, kind: ObstacleKind::BaseRampBluff });
    assert(t[12] == MapObstacle { x: -240i32, y: 720i32, radius: 75, kind: ObstacleKind::BaseRampBluff });
    assert(t[13] == MapObstacle { x: -360i32, y: 750i32, radius: 80, kind: ObstacleKind::BaseRampBluff });
    assert(t[14] == MapObstacle { x: 1080i32, y: -780i32, radius: 75, kind: ObstacleKind::CliffRidge });
    assert(t[15] == MapObstacle { x: 1120i32, y: -650i32, radius: 75, kind: ObstacleKind::CliffRidge });
    assert(t[16] == MapObstacle { x: -1080i32, y: 780i32, radius: 75, kind: ObstacleKind::CliffRidge });
    assert(t[17] == MapObstacle { x: -1120i32, y: 650i32, radius: 75, kind: ObstacleKind::CliffRidge });
    assert(t[18] == MapObstacle { x: -1400i32, y: 0i32, radius: 85, kind: ObstacleKind::CliffRidge });
    assert(t[19] == MapObstacle { x: 1400i32, y: 0i32, radius: 85, kind: ObstacleKind::CliffRidge });
    assert(t[20] == MapObstacle { x: -240i32, y: 0i32, radius: 80, kind: ObstacleKind::RockMonolith });
    assert(t[21] == MapObstacle { x: 240i32, y: 0i32, radius: 80, kind: ObstacleKind::RockMonolith });
    assert(t[22] == MapObstacle { x: -600i32, y: -250i32, radius: 75, kind: ObstacleKind::CliffRidge });
    assert(t[23] == MapObstacle { x: 600i32, y: 250i32, radius: 75, kind: ObstacleKind::CliffRidge });
    assert(t[24] == MapObstacle { x: 600i32, y: -250i32, radius: 75, kind: ObstacleKind::CliffRidge });
    assert(t[25] == MapObstacle { x: -600i32, y: 250i32, radius: 75, kind: ObstacleKind::CliffRidge });
}

/// Every obstacle stands within 1500 world units of the centre on each axis.
proof fn lemma_table_coords()
    ensures
        forall|i: int|
            0 <= i < 26 ==> -1500 <= #[trigger] obstacle_table()[i].x <= 1500 && -1500
                <= obstacle_table()[i].y <= 1500,
{
    let t = obstacle_table();
    assert forall|i: int| 0 <= i < 26 implies -1500 <= #[trigger] t[i].x <= 1500 && -1500 <= t[i].y
        <= 1500 by {
        if i == 0 {
            assert(t[0].x == -200 && t[0].y == -1320 && t[0].radius == 80);
        } else if i == 1 {
            assert(t[1].x == 0 && t[1].y == -1340 && t[1].radius == 80);
        } else if i == 2 {
            assert(t[2].x == 200 && t[2].y == -1320 && t[2].radius == 80);
        } else if i == 3 {
            assert(t[3].x == 200 && t[3].y == 1320 && t[3].radius == 80);
        } else if i == 4 {
            assert(t[4].x == 0 && t[4].y == 1340 && t[4].radius == 80);
        } else if i == 5 {
            assert(t[5].x == -200 && t[5].y == 1320 && t[5].radius == 80);
        } else if i == 6 {
            assert(t[6].x == -240 && t[6].y == -720 && t[6].radius == 75);
        } else if i == 7 {
            assert(t[7].x == -360 && t[7].y == -750 && t[7].radius == 80);
        } else if i == 8 {
            assert(t[8].x == 240 && t[8].y == -720 && t[8].radius == 75);
        } else if i == 9 {
            assert(t[9].x == 360 && t[9].y == -750 && t[9].radius == 80);
        } else if i == 10 {
            assert(t[10].x == 240 && t[10].y == 720 && t[10].radius == 75);
        } else if i == 11 {
            assert(t[11].x == 360 && t[11].y == 750 && t[11].radius == 80);
        } else if i == 12 {
            assert(t[12].x == -240 && t[12].y == 720 && t[12].radius == 75);
        } else if i == 13 {
            assert(t[13].x == -360 && t[13].y == 750 && t[13].radius == 80);
        } else if i == 14 {
            assert(t[14].x == 1080 && t[14].y == -780 && t[14].radius == 75);
        } else if i == 15 {
            assert(t[15].x == 1120 && t[15].y == -650 && t[15].radius == 75);
        } else if i == 16 {
            assert(t[16].x == -1080 && t[16].y == 780 && t[16].radius == 75);
        } else if i == 17 {
            assert(t[17].x == -1120 && t[17].y == 650 && t[17].radius == 75);
        } else if i == 18 {
            assert(t[18].x == -1400 && t[18].y == 0 && t[18].radius == 85);
        } else if i == 19 {
            assert(t[19].x == 1400 && t[19].y == 0 && t[19].radius == 85);
        } else if i == 20 {
            assert(t[20].x == -240 && t[20].y == 0 && t[20].radius == 80);
        } else if i == 21 {
            assert(t[21].x == 240 && t[21].y == 0 && t[21].radius == 80);
        } else if i == 22 {
            assert(t[22].x == -600 && t[22].y == -250 && t[22].radius == 75);
        } else if i == 23 {
            assert(t[23].x == 600 && t[23].y == 250 && t[23].radius == 75);
        } else if i == 24 {
            assert(t[24].x == 600 && t[24].y == -250 && t[24].radius == 75);
        } else if i == 25 {
            assert(t[25].x == -600 && t[25].y == 250 && t[25].radius == 75);
        }
    }
}

/// The obstacle at `i` reaches `(x, y)` exactly when its mirror image reaches `(-x, -y)`.
proof fn lemma_mirror_reach(i: int, x: int, y: int, radius: int, margin: int)
    requires
        0 <= i < 26,
    ensures
        0 <= mirror_index(i) < 26,
        within_reach(obstacle_table()[i], x, y, radius + obstacle_table()[i].radius + margin)
            == within_reach(
            obstacle_table()[mirror_index(i)],
            -x,
            -y,
            radius + obstacle_table()[mirror_index(i)].radius + margin,
        ),
{
    law_obstacles_mirrored();
    lemma_table_coords();
    let o = obstacle_table()[i];
    let m = obstacle_table()[mirror_index(i)];
    assert(m == mirrored(o));
    assert(m.x == -o.x && m.y == -o.y && m.radius == o.radius);
    assert((-x - m.x) * (-x - m.x) == (x - o.x) * (x - o.x)) by (nonlinear_arith)
        requires
            m.x == -o.x,
    ;
    assert((-y - m.y) * (-y - m.y) == (y - o.y) * (y - o.y)) by (nonlinear_arith)
        requires
            m.y == -o.y,
    ;
}

/// A larger reach reaches at least as far.
proof fn lemma_reach_grows(o: MapObstacle, x: int, y: int, reach: int, wider: int)
    requires
        0 <= reach <= wider,
        within_reach(o, x, y, reach),
    ensures
        within_reach(o, x, y, wider),
{
    assert(reach * reach <= wider * wider) by (nonlinear_arith)
        requires
            0 <= reach <= wider,
    ;
}

/// The obstacle test is symmetric under the half turn: a footprint at `(x, y)` overlaps an
/// obstacle exactly when the same footprint at `(-x, -y)` does. It also grows with the
/// footprint: a footprint that overlaps an obstacle still does with any larger radius.
pub proof fn law_obstacle_test_symmetric_and_monotone(
    x: int,
    y: int,
    radius: int,
    margin: int,
    larger: int,
)
    requires
        0 <= radius <= larger,
        0 <= margin,
    ensures
        overlaps_obstacles(x, y, radius, margin) == overlaps_obstacles(-x, -y, radius, margin),
        overlaps_obstacles(x, y, radius, margin) ==> overlaps_obstacles(x, y, larger, margin),
{
    let t = obstacle_table();
    law_obstacles_mirrored();
    if overlaps_obstacles(x, y, radius, margin) {
        let i = choose|i: int|
            0 <= i < t.len() && #[trigger] within_reach(t[i], x, y, radius + t[i].radius + margin);
        lemma_mirror_reach(i, x, y, radius, margin);
        let j = mirror_index(i);
        assert(within_reach(t[j], -x, -y, radius + t[j].radius + margin));
        lemma_reach_grows(t[i], x, y, radius + t[i].radius + margin, larger + t[i].radius + margin);
        assert(within_reach(t[i], x, y, larger + t[i].radius + margin));
    }
    if overlaps_obstacles(-x, -y, radius, margin) {
        let i = choose|i: int|
            0 <= i < t.len() && #[trigger] within_reach(t[i], -x, -y, radius + t[i].radius + margin);
        lemma_mirror_reach(i, -x, -y, radius, margin);
        let j = mirror_index(i);
        assert(-(-x) == x && -(-y) == y);
        assert(within_reach(t[j], x, y, radius + t[j].radius + margin));
    }
}

/// The footprint keeps its distance from each obstacle, spelled out obstacle by obstacle.
pub open spec fn clear_of_each(x: int, y: int, radius: int, margin: int) -> bool {
    &&& (x - (-200)) * (x - (-200)) + (y - (-1320)) * (y - (-1320)) >= (radius + 80 + margin) * (radius + 80 + margin)
    &&& (x - (0)) * (x - (0)) + (y - (-1340)) * (y - (-1340)) >= (radius + 80 + margin) * (radius + 80 + margin)
    &&& (x - (200)) * (x - (200)) + (y - (-1320)) * (y - (-1320)) >= (radius + 80 + margin) * (radius + 80 + margin)
    &&& (x - (200)) * (x - (200)) + (y - (1320)) * (y - (1320)) >= (radius + 80 + margin) * (radius + 80 + margin)
    &&& (x - (0)) * (x - (0)) + (y - (1340)) * (y - (1340)) >= (radius + 80 + margin) * (radius + 80 + margin)
    &&& (x - (-200)) * (x - (-200)) + (y - (1320)) * (y - (1320)) >= (radius + 80 + margin) * (radius + 80 + margin)
    &&& (x - (-240)) * (x - (-240)) + (y - (-720)) * (y - (-720)) >= (radius + 75 + margin) * (radius + 75 + margin)
    &&& (x - (-360)) * (x - (-360)) + (y - (-750)) * (y - (-750)) >= (radius + 80 + margin) * (radius + 80 + margin)
    &&& (x - (240)) * (x - (240)) + (y - (-720)) * (y - (-720)) >= (radius + 75 + margin) * (radius + 75 + margin)
    &&& (x - (360)) * (x - (360)) + (y - (-750)) * (y - (-750)) >= (radius + 80 + margin) * (radius + 80 + margin)
    &&& (x - (240)) * (x - (240)) + (y - (720)) * (y - (720)) >= (radius + 75 + margin) * (radius + 75 + margin)
    &&& (x - (360)) * (x - (360)) + (y - (750)) * (y - (750)) >= (radius + 80 + margin) * (radius + 80 + margin)
    &&& (x - (-240)) * (x - (-240)) + (y - (720)) * (y - (720)) >= (radius + 75 + margin) * (radius + 75 + margin)
    &&& (x - (-360)) * (x - (-360)) + (y - (750)) * (y - (750)) >= (radius + 80 + margin) * (radius + 80 + margin)
    &&& (x - (1080)) * (x - (1080)) + (y - (-780)) * (y - (-780)) >= (radius + 75 + margin) * (radius + 75 + margin)
    &&& (x - (1120)) * (x - (1120)) + (y - (-650)) * (y - (-650)) >= (radius + 75 + margin) * (radius + 75 + margin)
    &&& (x - (-1080)) * (x - (-1080)) + (y - (780)) * (y - (780)) >= (radius + 75 + margin) * (radius + 75 + margin)
    &&& (x - (-1120)) * (x - (-1120)) + (y - (650)) * (y - (650)) >= (radius + 75 + margin) * (radius + 75 + margin)
    &&& (x - (-1400)) * (x - (-1400)) + (y - (0)) * (y - (0)) >= (radius + 85 + margin) * (radius + 85 + margin)
    &&& (x - (1400)) * (x - (1400)) + (y - (0)) * (y - (0)) >= (radius + 85 + margin) * (radius + 85 + margin)
    &&& (x - (-240)) * (x - (-240)) + (y - (0)) * (y - (0)) >= (radius + 80 + margin) * (radius + 80 + margin)
    &&& (x - (240)) * (x - (240)) + (y - (0)) * (y - (0)) >= (radius + 80 + margin) * (radius + 80 + margin)
    &&& (x - (-600)) * (x - (-600)) + (y - (-250)) * (y - (-250)) >= (radius + 75 + margin) * (radius + 75 + margin)
    &&& (x - (600)) * (x - (600)) + (y - (250)) * (y - (250)) >= (radius + 75 + margin) * (radius + 75 + margin)
    &&& (x - (600)) * (x - (600)) + (y - (-250)) * (y - (-250)) >= (radius + 75 + margin) * (radius + 75 + margin)
    &&& (x - (-600)) * (x - (-600)) + (y - (250)) * (y - (250)) >= (radius + 75 + margin) * (radius + 75 + margin)
}

proof fn lemma_clear_of_each(x: int, y: int, radius: int, margin: int)
    requires
        clear_of_each(x, y, radius, margin),
    ensures
        !overlaps_obstacles(x, y, radius, margin),
{
    let t = obstacle_table();
    assert forall|i: int| 0 <= i < t.len() implies !#[trigger] within_reach(
        t[i],
        x,
        y,
        radius + t[i].radius + margin,
    ) by {
        if i == 0 {
            assert(t[0].x == -200 && t[0].y == -1320 && t[0].radius == 80);
        } else if i == 1 {
            assert(t[1].x == 0 && t[1].y == -1340 && t[1].radius == 80);
        } else if i == 2 {
            assert(t[2].x == 200 && t[2].y == -1320 && t[2].radius == 80);
        } else if i == 3 {
            assert(t[3].x == 200 && t[3].y == 1320 && t[3].radius == 80);
        } else if i == 4 {
            assert(t[4].x == 0 && t[4].y == 1340 && t[4].radius == 80);
        } else if i == 5 {
            assert(t[5].x == -200 && t[5].y == 1320 && t[5].radius == 80);
        } else if i == 6 {
            assert(t[6].x == -240 && t[6].y == -720 && t[6].radius == 75);
        } else if i == 7 {
            assert(t[7].x == -360 && t[7].y == -750 && t[7].radius == 80);
        } else if i == 8 {
            assert(t[8].x == 240 && t[8].y == -720 && t[8].radius == 75);
        } else if i == 9 {
            assert(t[9].x == 360 && t[9].y == -750 && t[9].radius == 80);
        } else if i == 10 {
            assert(t[10].x == 240 && t[10].y == 720 && t[10].radius == 75);
        } else if i == 11 {
            assert(t[11].x == 360 && t[11].y == 750 && t[11].radius == 80);
        } else if i == 12 {
            assert(t[12].x == -240 && t[12].y == 720 && t[12].radius == 75);
        } else if i == 13 {
            assert(t[13].x == -360 && t[13].y == 750 && t[13].radius == 80);
        } else if i == 14 {
            assert(t[14].x == 1080 && t[14].y == -780 && t[14].radius == 75);
        } else if i == 15 {
            assert(t[15].x == 1120 && t[15].y == -650 && t[15].radius == 75);
        } else if i == 16 {
            assert(t[16].x == -1080 && t[16].y == 780 && t[16].radius == 75);
        } else if i == 17 {
            assert(t[17].x == -1120 && t[17].y == 650 && t[17].radius == 75);
        } else if i == 18 {
            assert(t[18].x == -1400 && t[18].y == 0 && t[18].radius == 85);
        } else if i == 19 {
            assert(t[19].x == 1400 && t[19].y == 0 && t[19].radius == 85);
        } else if i == 20 {
            assert(t[20].x == -240 && t[20].y == 0 && t[20].radius == 80);
        } else if i == 21 {
            assert(t[21].x == 240 && t[21].y == 0 && t[21].radius == 80);
        } else if i == 22 {
            assert(t[22].x == -600 && t[22].y == -250 && t[22].radius == 75);
        } else if i == 23 {
            assert(t[23].x == 600 && t[23].y == 250 && t[23].radius == 75);
        } else if i == 24 {
            assert(t[24].x == 600 && t[24].y == -250 && t[24].radius == 75);
        } else if i == 25 {
            assert(t[25].x == -600 && t[25].y == 250 && t[25].radius == 75);
        }
    }
}

/// Both headquarters (radius 60) and every mineral field (radius 32) stand clear of all static
/// obstacles, and every site of Player 2 is the half-turn image of the matching site of
/// Player 1.
pub proof fn law_sites_clear_and_mirrored()
    ensures
        !overlaps_obstacles(P1_BASE_X as int, P1_BASE_Y as int, 60, 0),
        !overlaps_obstacles(P2_BASE_X as int, P2_BASE_Y as int, 60, 0),
        P1_BASE_X == -P2_BASE_X && P1_BASE_Y == -P2_BASE_Y,
        forall|k: int|
            0 <= k < p1_main_minerals_spec().len() ==> !overlaps_obstacles(
                (#[trigger] p1_main_minerals_spec()[k]).0 as int,
                p1_main_minerals_spec()[k].1 as int,
                32,
                0,
            ),
        forall|k: int|
            0 <= k < p2_main_minerals_spec().len() ==> !overlaps_obstacles(
                (#[trigger] p2_main_minerals_spec()[k]).0 as int,
                p2_main_minerals_spec()[k].1 as int,
                32,
                0,
            ),
        forall|k: int|
            0 <= k < p1_natural_minerals_spec().len() ==> !overlaps_obstacles(
                (#[trigger] p1_natural_minerals_spec()[k]).0 as int,
                p1_natural_minerals_spec()[k].1 as int,
                32,
                0,
            ),
        forall|k: int|
            0 <= k < p2_natural_minerals_spec().len() ==> !overlaps_obstacles(
                (#[trigger] p2_natural_minerals_spec()[k]).0 as int,
                p2_natural_minerals_spec()[k].1 as int,
                32,
                0,
            ),
        forall|k: int|
            0 <= k < contested_west_minerals_spec().len() ==> !overlaps_obstacles(
                (#[trigger] contested_west_minerals_spec()[k]).0 as int,
                contested_west_minerals_spec()[k].1 as int,
                32,
                0,
            ),
        forall|k: int|
            0 <= k < contested_east_minerals_spec().len() ==> !overlaps_obstacles(
                (#[trigger] contested_east_minerals_spec()[k]).0 as int,
                contested_east_minerals_spec()[k].1 as int,
                32,
                0,
            ),
        p1_main_minerals_spec().len() == p2_main_minerals_spec().len(),
        forall|k: int|
            0 <= k < p1_main_minerals_spec().len() ==> (#[trigger] p1_main_minerals_spec()[k]).0
                == -p2_main_minerals_spec()[k].0 && p1_main_minerals_spec()[k].1
                == -p2_main_minerals_spec()[k].1,
        p1_starter_workers_spec().len() == p2_starter_workers_spec().len(),
        forall|k: int|
            0 <= k < p1_starter_workers_spec().len() ==> (#[trigger] p1_starter_workers_spec()[k]).0
                == -p2_starter_workers_spec()[k].0 && p1_starter_workers_spec()[k].1
                == -p2_starter_workers_spec()[k].1,
        p1_natural_minerals_spec().len() == p2_natural_minerals_spec().len(),
        forall|k: int|
            0 <= k < p1_natural_minerals_spec().len() ==> (#[trigger] p1_natural_minerals_spec()[k]).0
                == -p2_natural_minerals_spec()[k].0 && p1_natural_minerals_spec()[k].1
                == -p2_natural_minerals_spec()[k].1,
        contested_west_minerals_spec().len() == contested_east_minerals_spec().len(),
        forall|k: int|
            0 <= k < contested_west_minerals_spec().len() ==> (
            #[trigger] contested_west_minerals_spec()[k]).0 == -contested_east_minerals_spec()[k].0
                && contested_west_minerals_spec()[k].1 == -contested_east_minerals_spec()[k].1,
{
    assert(clear_of_each(P1_BASE_X as int, P1_BASE_Y as int, 60, 0)) by (nonlinear_arith);
    lemma_clear_of_each(P1_BASE_X as int, P1_BASE_Y as int, 60, 0);
    assert(clear_of_each(P2_BASE_X as int, P2_BASE_Y as int, 60, 0)) by (nonlinear_arith);
    lemma_clear_of_each(P2_BASE_X as int, P2_BASE_Y as int, 60, 0);
    assert(clear_of_each(-110, -1180, 32, 0)) by (nonlinear_arith);
    lemma_clear_of_each(-110, -1180, 32, 0);
    assert(clear_of_each(0, -1200, 32, 0)) by (nonlinear_arith);
    lemma_clear_of_each(0, -1200, 32, 0);
    assert(clear_of_each(110, -1180, 32, 0)) by (nonlinear_arith);
    lemma_clear_of_each(110, -1180, 32, 0);
    assert(clear_of_each(110, 1180, 32, 0)) by (nonlinear_arith);
    lemma_clear_of_each(110, 1180, 32, 0);
    assert(clear_of_each(0, 1200, 32, 0)) by (nonlinear_arith);
    lemma_clear_of_each(0, 1200, 32, 0);
    assert(clear_of_each(-110, 1180, 32, 0)) by (nonlinear_arith);
    lemma_clear_of_each(-110, 1180, 32, 0);
    assert(clear_of_each(880, -750, 32, 0)) by (nonlinear_arith);
    lemma_clear_of_each(880, -750, 32, 0);
    assert(clear_of_each(960, -680, 32, 0)) by (nonlinear_arith);
    lemma_clear_of_each(960, -680, 32, 0);
    assert(clear_of_each(-880, 750, 32, 0)) by (nonlinear_arith);
    lemma_clear_of_each(-880, 750, 32, 0);
    assert(clear_of_each(-960, 680, 32, 0)) by (nonlinear_arith);
    lemma_clear_of_each(-960, 680, 32, 0);
    assert(clear_of_each(-1250, -50, 32, 0)) by (nonlinear_arith);
    lemma_clear_of_each(-1250, -50, 32, 0);
    assert(clear_of_each(-1250, 50, 32, 0)) by (nonlinear_arith);
    lemma_clear_of_each(-1250, 50, 32, 0);
    assert(clear_of_each(1250, 50, 32, 0)) by (nonlinear_arith);
    lemma_clear_of_each(1250, 50, 32, 0);
    assert(clear_of_each(1250, -50, 32, 0)) by (nonlinear_arith);
    lemma_clear_of_each(1250, -50, 32, 0);
    let p1_main_minerals = p1_main_minerals_spec();
    assert(p1_main_minerals[0] == (-110i32, -1180i32));
    assert(p1_main_minerals[1] == (0i32, -1200i32));
    assert(p1_main_minerals[2] == (110i32, -1180i32));
    let p2_main_minerals = p2_main_minerals_spec();
    assert(p2_main_minerals[0] == (110i32, 1180i32));
    assert(p2_main_minerals[1] == (0i32, 1200i32));
    assert(p2_main_minerals[2] == (-110i32, 1180i32));
    let p1_natural_minerals = p1_natural_minerals_spec();
    assert(p1_natural_minerals[0] == (880i32, -750i32));
    assert(p1_natural_minerals[1] == (960i32, -680i32));
    let p2_natural_minerals = p2_natural_minerals_spec();
    assert(p2_natural_minerals[0] == (-880i32, 750i32));
    assert(p2_natural_minerals[1] == (-960i32, 680i32));
    let contested_west_minerals = contested_west_minerals_spec();
    assert(contested_west_minerals[0] == (-1250i32, -50i32));
    assert(contested_west_minerals[1] == (-1250i32, 50i32));
    let contested_east_minerals = contested_east_minerals_spec();
    assert(contested_east_minerals[0] == (1250i32, 50i32));
    assert(contested_east_minerals[1] == (1250i32, -50i32));
    let p1_starter_workers = p1_starter_workers_spec();
    assert(p1_starter_workers[0] == (-45i32, -920i32));
    assert(p1_starter_workers[1] == (45i32, -920i32));
    let p2_starter_workers = p2_starter_workers_spec();
    assert(p2_starter_workers[0] == (45i32, 920i32));
    assert(p2_starter_workers[1] == (-45i32, 920i32));
}

} // verus!
