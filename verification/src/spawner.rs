use vstd::prelude::*;
use crate::faction::Faction;
use crate::kinds::{BuildingKind, EntityKind, GameMode, UnitKind};
use crate::map::{
    contested_east_minerals, contested_east_minerals_spec, contested_west_minerals,
    contested_west_minerals_spec, p1_main_minerals, p1_main_minerals_spec,
    p1_natural_expansion_minerals, p1_natural_minerals_spec, p1_starter_workers,
    p1_starter_workers_spec, p2_main_minerals, p2_main_minerals_spec,
    p2_natural_expansion_minerals, p2_natural_minerals_spec, p2_starter_workers,
    p2_starter_workers_spec, P1_BASE_X, P1_BASE_Y, P2_BASE_X, P2_BASE_Y,
};
use crate::matchmaker::{opponent_faction, opponent_of, Matchmaker};

verus! {

/// One entity of the starting layout of a match.
#[derive(Debug, Clone, Copy, PartialEq, Eq, Structural)]
pub struct SpawnPlan {
    pub net_id: u32,
    pub kind: EntityKind,
    pub faction: Faction,
    pub x: i32,
    pub y: i32,
}

/// What stands where when a match starts, without network ids.
pub type Placement = (EntityKind, Faction, i32, i32);

/// Placements of `kind` and `faction` at each of `points`.
pub open spec fn placed(points: Seq<(i32, i32)>, kind: EntityKind, faction: Faction) -> Seq<Placement> {
    Seq::new(points.len(), |i: int| (kind, faction, points[i].0, points[i].1))
}

/// The starting layout: Player 1's headquarters, main minerals and workers, then the same for
/// the opponent (the AI in solo), then the expansion minerals.
pub open spec fn match_layout(mode: GameMode) -> Seq<Placement> {
    let hq = EntityKind::Building(BuildingKind::BaseHQ);
    let worker = EntityKind::Unit(UnitKind::Worker);
    let p2 = opponent_faction(mode);
    seq![(hq, Faction::Player1, P1_BASE_X, P1_BASE_Y)]
        + placed(p1_main_minerals_spec(), EntityKind::ResourceNode, Faction::Neutral)
        + placed(p1_starter_workers_spec(), worker, Faction::Player1)
        + seq![(hq, p2, P2_BASE_X, P2_BASE_Y)]
        + placed(p2_main_minerals_spec(), EntityKind::ResourceNode, Faction::Neutral)
        + placed(p2_starter_workers_spec(), worker, p2)
        + placed(p1_natural_minerals_spec(), EntityKind::ResourceNode, Faction::Neutral)
        + placed(p2_natural_minerals_spec(), EntityKind::ResourceNode, Faction::Neutral)
        + placed(contested_west_minerals_spec(), EntityKind::ResourceNode, Faction::Neutral)
        + placed(contested_east_minerals_spec(), EntityKind::ResourceNode, Faction::Neutral)
}

/// Appends a placement of `kind` and `faction` at each of `points`.
fn place_all(out: &mut Vec<Placement>, points: Vec<(i32, i32)>, kind: EntityKind, faction: Faction)
    ensures
        final(out)@ == old(out)@ + placed(points@, kind, faction),
{
    let ghost start = out@;
    let mut i: usize = 0;
    while i < points.len()
        invariant
            i <= points@.len(),
            out@ == start + placed(points@.take(i as int), kind, faction),
        decreases points@.len() - i,
    {
        let p = points[i];
        out.push((kind, faction, p.0, p.1));
        proof {
            assert(placed(points@.take(i + 1), kind, faction) =~= placed(
                points@.take(i as int),
                kind,
                faction,
            ).push((kind, faction, p.0, p.1)));
        }
        i = i + 1;
    }
    proof {
        assert(points@.take(i as int) =~= points@);
    }
}

/// The starting layout of a match in `mode`.
pub fn layout_for(mode: GameMode) -> (res: Vec<Placement>)
    ensures
        res@ == match_layout(mode),
{
    let hq = EntityKind::Building(BuildingKind::BaseHQ);
    let worker = EntityKind::Unit(UnitKind::Worker);
    let p2 = opponent_of(mode);
    let mut out: Vec<Placement> = Vec::new();
    out.push((hq, Faction::Player1, P1_BASE_X, P1_BASE_Y));
    place_all(&mut out, p1_main_minerals(), EntityKind::ResourceNode, Faction::Neutral);
    place_all(&mut out, p1_starter_workers(), worker, Faction::Player1);
    out.push((hq, p2, P2_BASE_X, P2_BASE_Y));
    place_all(&mut out, p2_main_minerals(), EntityKind::ResourceNode, Faction::Neutral);
    place_all(&mut out, p2_starter_workers(), worker, p2);
    place_all(&mut out, p1_natural_expansion_minerals(), EntityKind::ResourceNode, Faction::Neutral);
    place_all(&mut out, p2_natural_expansion_minerals(), EntityKind::ResourceNode, Faction::Neutral);
    place_all(&mut out, contested_west_minerals(), EntityKind::ResourceNode, Faction::Neutral);
    place_all(&mut out, contested_east_minerals(), EntityKind::ResourceNode, Faction::Neutral);
    proof {
        assert(out@ =~= match_layout(mode));
    }
    out
}

impl Matchmaker {
    /// Plans the starting entities of a match: the starting layout, each entity with a fresh
    /// network id, in order.
    pub fn plan_match_spawns(&mut self, mode: GameMode) -> (res: Vec<SpawnPlan>)
        requires
            old(self).next_net_id + match_layout(mode).len() <= u32::MAX,
        ensures
            res@.len() == match_layout(mode).len(),
            forall|i: int|
                0 <= i < res@.len() ==> {
                    let p = #[trigger] res@[i];
                    let l = match_layout(mode)[i];
                    &&& p.net_id == old(self).next_net_id + i
                    &&& p.kind == l.0
                    &&& p.faction == l.1
                    &&& p.x == l.2
                    &&& p.y == l.3
                },
            final(self).next_net_id == old(self).next_net_id + match_layout(mode).len(),
            final(self).rooms@ == old(self).rooms@,
            final(self).players@ == old(self).players@,
            final(self).connected_peers@ == old(self).connected_peers@,
            final(self).waiting_1v1_peer == old(self).waiting_1v1_peer,
            final(self).next_room_id == old(self).next_room_id,
    {
        let layout = layout_for(mode);
        let ghost first = self.next_net_id;
        let mut res: Vec<SpawnPlan> = Vec::new();
        let mut i: usize = 0;
        while i < layout.len()
            invariant
                i <= layout@.len(),
                layout@ == match_layout(mode),
                first + layout@.len() <= u32::MAX,
                self.next_net_id == first + i,
                res@.len() == i,
                forall|k: int|
                    0 <= k < i ==> {
                        let p = #[trigger] res@[k];
                        let l = layout@[k];
                        &&& p.net_id == first + k
                        &&& p.kind == l.0
                        &&& p.faction == l.1
                        &&& p.x == l.2
                        &&& p.y == l.3
                    },
                self.rooms@ == old(self).rooms@,
                self.players@ == old(self).players@,
                self.connected_peers@ == old(self).connected_peers@,
                self.waiting_1v1_peer == old(self).waiting_1v1_peer,
                self.next_room_id == old(self).next_room_id,
            decreases layout@.len() - i,
        {
            let (kind, faction, x, y) = layout[i];
            let net_id = self.alloc_net_id();
            res.push(SpawnPlan { net_id, kind, faction, x, y });
            i = i + 1;
        }
        res
    }
}

/// A match starts with twenty entities.
pub proof fn law_layout_size(mode: GameMode)
    ensures
        match_layout(mode).len() == 20,
{
}

/// Placement `p` stands within 150 world units of `(bx, by)`.
pub open spec fn stands_near(p: Placement, bx: i32, by: i32) -> bool {
    (p.2 - bx) * (p.2 - bx) + (p.3 - by) * (p.3 - by) <= 150 * 150
}

/// Each side starts at home: Player 1's headquarters stands on Player 1's base and the
/// opponent's on the other base, on the other half of the map; every starting worker belongs to
/// one of the two sides and stands next to its own side's headquarters, on its own half; and
/// each side starts with two workers.
#[verifier::spinoff_prover]
#[verifier::rlimit(80)]
pub proof fn law_sides_start_at_home(mode: GameMode)
    ensures
        forall|i: int|
            0 <= i < match_layout(mode).len() ==> {
                let p = #[trigger] match_layout(mode)[i];
                &&& p.0 == EntityKind::Building(BuildingKind::BaseHQ) ==> (p.1 == Faction::Player1
                    && p.2 == P1_BASE_X && p.3 == P1_BASE_Y) || (p.1 == opponent_faction(mode)
                    && p.2 == P2_BASE_X && p.3 == P2_BASE_Y)
                &&& p.0 == EntityKind::Unit(UnitKind::Worker) ==> (p.1 == Faction::Player1
                    && stands_near(p, P1_BASE_X, P1_BASE_Y) && p.3 < 0) || (p.1 == opponent_faction(
                    mode,
                ) && stands_near(p, P2_BASE_X, P2_BASE_Y) && p.3 > 0)
            },
        exists|i: int, j: int|
            0 <= i < j < match_layout(mode).len() && (#[trigger] match_layout(mode)[i]).0
                == EntityKind::Unit(UnitKind::Worker) && match_layout(mode)[i].1 == Faction::Player1
                && (#[trigger] match_layout(mode)[j]).0 == EntityKind::Unit(UnitKind::Worker)
                && match_layout(mode)[j].1 == Faction::Player1,
        exists|i: int, j: int|
            0 <= i < j < match_layout(mode).len() && (#[trigger] match_layout(mode)[i]).0
                == EntityKind::Unit(UnitKind::Worker) && match_layout(mode)[i].1 == opponent_faction(
                mode,
            ) && (#[trigger] match_layout(mode)[j]).0 == EntityKind::Unit(UnitKind::Worker)
                && match_layout(mode)[j].1 == opponent_faction(mode),
{
    let l = match_layout(mode);
    law_layout_size(mode);
    assert forall|i: int| 0 <= i < l.len() implies home_ok(mode, #[trigger] l[i]) by {
        lemma_home_at(mode, i);
    }
    lemma_home_at(mode, 4);
    lemma_home_at(mode, 5);
    lemma_home_at(mode, 10);
    lemma_home_at(mode, 11);
}

/// Placement `p` of the starting layout of `mode` is at home (see `law_sides_start_at_home`).
pub open spec fn home_ok(mode: GameMode, p: Placement) -> bool {
    &&& p.0 == EntityKind::Building(BuildingKind::BaseHQ) ==> (p.1 == Faction::Player1 && p.2
        == P1_BASE_X && p.3 == P1_BASE_Y) || (p.1 == opponent_faction(mode) && p.2 == P2_BASE_X
        && p.3 == P2_BASE_Y)
    &&& p.0 == EntityKind::Unit(UnitKind::Worker) ==> (p.1 == Faction::Player1 && stands_near(
        p,
        P1_BASE_X,
        P1_BASE_Y,
    ) && p.3 < 0) || (p.1 == opponent_faction(mode) && stands_near(p, P2_BASE_X, P2_BASE_Y)
        && p.3 > 0)
}

#[verifier::spinoff_prover]
#[verifier::rlimit(40)]
proof fn lemma_home_at(mode: GameMode, i: int)
    requires
        0 <= i < 20,
    ensures
        home_ok(mode, match_layout(mode)[i]),
        i == 4 || i == 5 ==> match_layout(mode)[i].0 == EntityKind::Unit(UnitKind::Worker)
            && match_layout(mode)[i].1 == Faction::Player1,
        i == 10 || i == 11 ==> match_layout(mode)[i].0 == EntityKind::Unit(UnitKind::Worker)
            && match_layout(mode)[i].1 == opponent_faction(mode),
{
    let l = match_layout(mode);
    let hq = EntityKind::Building(BuildingKind::BaseHQ);
    let worker = EntityKind::Unit(UnitKind::Worker);
    let rn = EntityKind::ResourceNode;
    let p2 = opponent_faction(mode);
    if i == 0 {
        assert(l[0] == (hq, Faction::Player1, P1_BASE_X, P1_BASE_Y));
    } else if i == 4 {
        assert(l[4] == (worker, Faction::Player1, -45i32, -920i32));
        assert(stands_near(l[4], P1_BASE_X, P1_BASE_Y)) by (nonlinear_arith)
            requires
                l[4].2 == -45,
                l[4].3 == -920,
                P1_BASE_X == 0,
                P1_BASE_Y == -1000,
        ;
    } else if i == 5 {
        assert(l[5] == (worker, Faction::Player1, 45i32, -920i32));
        assert(stands_near(l[5], P1_BASE_X, P1_BASE_Y)) by (nonlinear_arith)
            requires
                l[5].2 == 45,
                l[5].3 == -920,
                P1_BASE_X == 0,
                P1_BASE_Y == -1000,
        ;
    } else if i == 6 {
        assert(l[6] == (hq, p2, P2_BASE_X, P2_BASE_Y));
    } else if i == 10 {
        assert(l[10] == (worker, p2, 45i32, 920i32));
        assert(stands_near(l[10], P2_BASE_X, P2_BASE_Y)) by (nonlinear_arith)
            requires
                l[10].2 == 45,
                l[10].3 == 920,
                P2_BASE_X == 0,
                P2_BASE_Y == 1000,
        ;
    } else if i == 11 {
        assert(l[11] == (worker, p2, -45i32, 920i32));
        assert(stands_near(l[11], P2_BASE_X, P2_BASE_Y)) by (nonlinear_arith)
            requires
                l[11].2 == -45,
                l[11].3 == 920,
                P2_BASE_X == 0,
                P2_BASE_Y == 1000,
        ;
    } else {
        assert(l[i].0 == rn);
    }
}

} // verus!
