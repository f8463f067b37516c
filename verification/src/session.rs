use vstd::prelude::*;
use crate::faction::Faction;
use crate::matchmaker::{index_of_room, lemma_index_of_room, room_by_id, Matchmaker, Room};

verus! {

broadcast use vstd::std_specs::hash::group_hash_axioms;

/// What a player leaving a match leads to.
#[derive(Debug)]
pub struct LeaveOutcome {
    /// The room the player sat in; its entities go.
    pub room_id: u32,
    /// The other players seated in that room, who are told that they won.
    pub remaining_peers: Vec<u64>,
    /// The faction that wins by the player leaving.
    pub winning_faction: Faction,
}

/// Peers seated in a room other than `peer`, Player 1 first.
pub open spec fn seated_except(r: Room, peer: u64) -> Seq<u64> {
    let first = match r.p1_peer {
        Some(p) => if p != peer {
            seq![p]
        } else {
            Seq::empty()
        },
        None => Seq::empty(),
    };
    match r.p2_peer {
        Some(p) => if p != peer {
            first.push(p)
        } else {
            first
        },
        None => first,
    }
}

/// The faction that wins when a player of `f` leaves.
pub open spec fn winner_on_leave(f: Faction) -> Faction {
    if f == Faction::Player1 {
        Faction::Player2
    } else {
        Faction::Player1
    }
}

/// The faction and room of a peer, Player 1 and room 0 for an unknown peer.
pub open spec fn player_and_room(m: Matchmaker, peer: u64) -> (Faction, u32) {
    if m.players@.contains_key(peer) {
        (m.players@[peer].faction, m.players@[peer].room_id)
    } else {
        (Faction::Player1, 0)
    }
}

/// The rooms without the room with id `id`.
pub open spec fn rooms_without(rooms: Seq<Room>, id: u32) -> Seq<Room> {
    match index_of_room(rooms, id, 0) {
        Some(i) => rooms.remove(i),
        None => rooms,
    }
}

impl Matchmaker {
    /// The faction and room of a peer; Player 1 and room 0 for an unknown peer.
    pub fn get_player_and_room(&self, peer_id: u64) -> (res: (Faction, u32))
        ensures
            res == player_and_room(*self, peer_id),
    {
        match self.players.get(&peer_id) {
            Some(p) => (p.faction, p.room_id),
            None => (Faction::Player1, 0),
        }
    }

    /// The peers who receive a chat line or a ping from `peer_id`: those seated in its room.
    /// `None` when the peer is unknown.
    pub fn room_audience(&self, peer_id: u64) -> (res: Option<Vec<u64>>)
        ensures
            res is Some <==> self.players@.contains_key(peer_id),
            res matches Some(v) ==> v@ == (match room_by_id(
                self.rooms@,
                self.players@[peer_id].room_id,
            ) {
                Some(r) => crate::matchmaker::seated(r),
                None => Seq::empty(),
            }),
    {
        match self.players.get(&peer_id) {
            Some(p) => Some(self.get_room_peers(p.room_id)),
            None => None,
        }
    }

    /// A player leaves (forfeits) its match: the player is forgotten and its room goes away.
    /// `None` when the peer holds no seat.
    pub fn leave_active_match(&mut self, peer_id: u64) -> (res: Option<LeaveOutcome>)
        ensures
            res is Some <==> old(self).players@.contains_key(peer_id),
            res is None ==> final(self).players@ == old(self).players@ && final(self).rooms@ == old(
                self,
            ).rooms@,
            res matches Some(o) ==> {
                let p = old(self).players@[peer_id];
                &&& o.room_id == p.room_id
                &&& o.winning_faction == winner_on_leave(p.faction)
                &&& o.remaining_peers@ == (match room_by_id(old(self).rooms@, p.room_id) {
                    Some(r) => seated_except(r, peer_id),
                    None => Seq::empty(),
                })
                &&& final(self).players@ == old(self).players@.remove(peer_id)
                &&& final(self).rooms@ == rooms_without(old(self).rooms@, p.room_id)
            },
            final(self).connected_peers@ == old(self).connected_peers@,
            final(self).waiting_1v1_peer == old(self).waiting_1v1_peer,
            final(self).next_room_id == old(self).next_room_id,
            final(self).next_net_id == old(self).next_net_id,
    {
        match self.players.remove(&peer_id) {
            Some(player) => {
                let room_id = player.room_id;
                let mut remaining: Vec<u64> = Vec::new();
                match self.remove_room(room_id) {
                    Some(room) => {
                        proof {
                            lemma_index_of_room(old(self).rooms@, room_id, 0);
                        }
                        if let Some(p1) = room.p1_peer {
                            if p1 != peer_id {
                                remaining.push(p1);
                            }
                        }
                        if let Some(p2) = room.p2_peer {
                            if p2 != peer_id {
                                remaining.push(p2);
                            }
                        }
                        proof {
                            assert(remaining@ =~= seated_except(room, peer_id));
                        }
                    },
                    None => {},
                }
                let winning_faction = if player.faction == Faction::Player1 {
                    Faction::Player2
                } else {
                    Faction::Player1
                };
                Some(LeaveOutcome { room_id, remaining_peers: remaining, winning_faction })
            },
            None => None,
        }
    }

    /// A peer's connection closes: it is no longer online, leaves the 1v1 queue, and leaves its
    /// match.
    pub fn disconnect_peer(&mut self, peer_id: u64) -> (res: Option<LeaveOutcome>)
        ensures
            final(self).connected_peers@ == old(self).connected_peers@.remove(peer_id),
            final(self).waiting_1v1_peer == (if old(self).waiting_1v1_peer == Some(peer_id) {
                None
            } else {
                old(self).waiting_1v1_peer
            }),
            res is Some <==> old(self).players@.contains_key(peer_id),
            res is None ==> final(self).players@ == old(self).players@ && final(self).rooms@ == old(
                self,
            ).rooms@,
            res matches Some(o) ==> {
                let p = old(self).players@[peer_id];
                &&& o.room_id == p.room_id
                &&& o.winning_faction == winner_on_leave(p.faction)
                &&& o.remaining_peers@ == (match room_by_id(old(self).rooms@, p.room_id) {
                    Some(r) => seated_except(r, peer_id),
                    None => Seq::empty(),
                })
                &&& final(self).players@ == old(self).players@.remove(peer_id)
                &&& final(self).rooms@ == rooms_without(old(self).rooms@, p.room_id)
            },
            final(self).next_room_id == old(self).next_room_id,
            final(self).next_net_id == old(self).next_net_id,
    {
        self.connected_peers.remove(&peer_id);
        let queued = match self.waiting_1v1_peer {
            Some(w) => w == peer_id,
            None => false,
        };
        if queued {
            self.waiting_1v1_peer = None;
        }
        self.leave_active_match(peer_id)
    }
}

/// No two rooms share an id.
pub open spec fn ids_unique(rooms: Seq<Room>) -> bool {
    forall|i: int, j: int|
        0 <= i < j < rooms.len() ==> (#[trigger] rooms[i]).room_id != (#[trigger] rooms[j]).room_id
}

pub(crate) proof fn lemma_no_index(rooms: Seq<Room>, id: u32, from: int)
    requires
        0 <= from,
        forall|k: int| from <= k < rooms.len() ==> (#[trigger] rooms[k]).room_id != id,
    ensures
        index_of_room(rooms, id, from) is None,
    decreases rooms.len() - from,
{
    if from < rooms.len() {
        lemma_no_index(rooms, id, from + 1);
    }
}

/// When room ids are unique, the room of a player who left can no longer be found.
pub proof fn law_left_room_is_gone(rooms: Seq<Room>, id: u32)
    requires
        ids_unique(rooms),
    ensures
        room_by_id(rooms_without(rooms, id), id) is None,
{
    lemma_index_of_room(rooms, id, 0);
    match index_of_room(rooms, id, 0) {
        Some(i) => {
            let rest = rooms.remove(i);
            assert forall|k: int| 0 <= k < rest.len() implies (#[trigger] rest[k]).room_id != id by {
                if k < i {
                    assert(rooms[k] == rest[k]);
                } else {
                    assert(rooms[k + 1] == rest[k]);
                }
            }
            lemma_no_index(rest, id, 0);
        },
        None => {},
    }
}

} // verus!
