use vstd::prelude::*;
use crate::faction::Faction;
use crate::kinds::GameMode;

verus! {

/// A player may order a unit when it names the unit, and the unit is of the player's faction
/// and in the player's room.
pub open spec fn may_command(
    order_ids: Seq<u32>,
    unit_id: u32,
    unit_faction: Faction,
    unit_room: u32,
    player_faction: Faction,
    player_room: u32,
) -> bool {
    order_ids.contains(unit_id) && unit_faction == player_faction && unit_room == player_room
}

/// Whether an order naming `order_ids` applies to the unit with net id `unit_id`.
pub fn is_commandable(
    order_ids: &Vec<u32>,
    unit_id: u32,
    unit_faction: Faction,
    unit_room: u32,
    player_faction: Faction,
    player_room: u32,
) -> (res: bool)
    ensures
        res == may_command(
            order_ids@,
            unit_id,
            unit_faction,
            unit_room,
            player_faction,
            player_room,
        ),
{
    if unit_faction != player_faction || unit_room != player_room {
        return false;
    }
    let mut i: usize = 0;
    while i < order_ids.len()
        invariant
            i <= order_ids@.len(),
            unit_faction == player_faction,
            unit_room == player_room,
            forall|k: int| 0 <= k < i ==> order_ids@[k] != unit_id,
        decreases order_ids@.len() - i,
    {
        if order_ids[i] == unit_id {
            assert(order_ids@[i as int] == unit_id);
            return true;
        }
        i = i + 1;
    }
    false
}

/// Winner of a running match, from which headquarters still stand: Player 1 wins when only
/// its headquarters stands; the opponent (the AI in solo, else Player 2) when only the
/// opponent's stands; nobody yet otherwise.
pub open spec fn winner_spec(mode: GameMode, has_p1_hq: bool, has_enemy_hq: bool) -> Option<Faction> {
    if !has_p1_hq && has_enemy_hq {
        Some(
            if mode == GameMode::SoloVsAi {
                Faction::HostileAi
            } else {
                Faction::Player2
            },
        )
    } else if has_p1_hq && !has_enemy_hq {
        Some(Faction::Player1)
    } else {
        None
    }
}

/// Decides whether a match is over and who won.
pub fn match_winner(mode: GameMode, has_p1_hq: bool, has_enemy_hq: bool) -> (res: Option<Faction>)
    ensures
        res == winner_spec(mode, has_p1_hq, has_enemy_hq),
{
    if !has_p1_hq && has_enemy_hq {
        if mode == GameMode::SoloVsAi {
            Some(Faction::HostileAi)
        } else {
            Some(Faction::Player2)
        }
    } else if has_p1_hq && !has_enemy_hq {
        Some(Faction::Player1)
    } else {
        None
    }
}

/// Number of hostile marines in solo wave `wave` (waves count from 1).
pub open spec fn squad_size(wave: u32) -> int {
    if wave == 1 {
        3
    } else if wave == 2 {
        6
    } else if wave == 3 {
        10
    } else {
        14 + (wave - 4) * 3
    }
}

/// Number of hostile marines in solo wave `wave`.
pub fn wave_squad_size(wave: u32) -> (count: u32)
    requires
        1 <= wave,
        squad_size(wave) <= u32::MAX,
    ensures
        count == squad_size(wave),
{
    match wave {
        1 => 3,
        2 => 6,
        3 => 10,
        w => 14 + (w - 4) * 3,
    }
}

/// Each solo wave is larger than the one before.
pub proof fn law_waves_grow(wave: u32)
    requires
        1 <= wave < u32::MAX,
    ensures
        squad_size(wave) < squad_size((wave + 1) as u32),
{
}

/// A match in which both headquarters stand, or neither, has no winner yet; otherwise the side
/// whose headquarters stands wins.
pub proof fn law_winner(mode: GameMode, has_p1_hq: bool, has_enemy_hq: bool)
    ensures
        has_p1_hq == has_enemy_hq ==> winner_spec(mode, has_p1_hq, has_enemy_hq) is None,
        has_p1_hq && !has_enemy_hq ==> winner_spec(mode, has_p1_hq, has_enemy_hq) == Some(
            Faction::Player1,
        ),
        !has_p1_hq && has_enemy_hq ==> winner_spec(mode, has_p1_hq, has_enemy_hq) != Some(
            Faction::Player1,
        ),
{
}

/// An order never moves a unit of another faction or of another room.
pub proof fn law_orders_stay_in_own_side(
    order_ids: Seq<u32>,
    unit_id: u32,
    unit_faction: Faction,
    unit_room: u32,
    player_faction: Faction,
    player_room: u32,
)
    requires
        unit_faction != player_faction || unit_room != player_room,
    ensures
        !may_command(order_ids, unit_id, unit_faction, unit_room, player_faction, player_room),
{
}

} // verus!
