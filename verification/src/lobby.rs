use vstd::prelude::*;
use crate::faction::Faction;
use crate::kinds::{ClientPlatform, FactionColor, GameMode};
use crate::matchmaker::{
    count_pvp, count_solo, generated_code, index_joinable, index_of_room, joinable_with, room_by_id,
    room_start_economy, seated, Matchmaker, PlayerSession, Room, MAX_ACTIVE_PVP_MATCHES,
    MAX_ACTIVE_SOLO_MATCHES,
};
use crate::session::{ids_unique, lemma_no_index, rooms_without};
use crate::text::{
    ascii_text, ascii_upper, lemma_trimmed_stays_ascii, to_upper, trim_str, trimmed,
    uppercased,
};

verus! {

broadcast use vstd::std_specs::hash::group_hash_axioms;

/// What a lobby request led to; the server tells the players and spawns the match from it.
#[derive(Debug)]
pub enum LobbyOutcome {
    /// All solo slots are taken.
    SoloCapacityFull,
    /// A solo match against the AI starts in a new room.
    SoloStarted { room_id: u32 },
    /// The player waits in the 1v1 queue.
    Queued,
    /// All 1v1 slots are taken; the waiting player stays queued.
    PvpCapacityFull,
    /// The waiting player (the host, Player 1) and this player (Player 2) start a 1v1 match.
    PvpMatched {
        room_id: u32,
        host_peer: u64,
        host_name: String,
        host_color: FactionColor,
        guest_color: FactionColor,
    },
    /// A private room waits for a second player who knows its code.
    PrivateRoomCreated { room_id: u32, code: String },
    /// The player takes the second seat of a private room; the match starts.
    PrivateRoomJoined {
        room_id: u32,
        host_peer: u64,
        host_name: String,
        host_color: FactionColor,
        guest_color: FactionColor,
    },
    /// No private room waits for the given code.
    PrivateRoomNotFound,
}

/// A session with the given fields.
pub open spec fn session_is(
    s: PlayerSession,
    peer: u64,
    name: Seq<char>,
    room: u32,
    faction: Faction,
    color: FactionColor,
    platform: ClientPlatform,
) -> bool {
    &&& s.peer_id == peer
    &&& s.name@ == name
    &&& s.room_id == room
    &&& s.faction == faction
    &&& s.color == color
    &&& s.platform == platform
}

/// A room as a match starts it, with the starting economy of `mode`.
pub open spec fn room_is(
    r: Room,
    id: u32,
    code: Option<Seq<char>>,
    mode: GameMode,
    p1: Option<u64>,
    p2: Option<u64>,
    active: bool,
) -> bool {
    &&& r.room_id == id
    &&& (match (r.room_code, code) {
        (Some(a), Some(b)) => a@ == b,
        (None, None) => true,
        _ => false,
    })
    &&& r.mode == mode
    &&& r.p1_peer == p1
    &&& r.p2_peer == p2
    &&& r.is_active == active
    &&& r.current_wave == 0
    &&& r.economy@ == room_start_economy(mode)
}

/// The rooms after putting `r` in: it replaces the room with its id, or is appended.
pub open spec fn upserted(rooms: Seq<Room>, r: Room) -> Seq<Room> {
    match index_of_room(rooms, r.room_id, 0) {
        Some(i) => rooms.update(i, r),
        None => rooms.push(r),
    }
}

/// Nothing of the matchmaker changed.
pub open spec fn unchanged(a: Matchmaker, b: Matchmaker) -> bool {
    &&& b.rooms@ == a.rooms@
    &&& b.players@ == a.players@
    &&& b.connected_peers@ == a.connected_peers@
    &&& b.waiting_1v1_peer == a.waiting_1v1_peer
    &&& b.next_room_id == a.next_room_id
    &&& b.next_net_id == a.next_net_id
}

/// The colour asked for, blue by default.
pub open spec fn color_or_blue(c: Option<FactionColor>) -> FactionColor {
    match c {
        Some(c) => c,
        None => FactionColor::Blue,
    }
}

/// The guest keeps its colour unless the host has it; then the guest plays red.
pub open spec fn guest_color_for(asked: FactionColor, host: FactionColor) -> FactionColor {
    if asked == host {
        FactionColor::Red
    } else {
        asked
    }
}

/// Name of the host as the server knows it, "Commander 1" when it knows none.
pub open spec fn host_name_of(players: Map<u64, PlayerSession>, host: u64) -> Seq<char> {
    if players.contains_key(host) {
        players[host].name@
    } else {
        "Commander 1"@
    }
}

/// Colour of the host, blue when the server knows none.
pub open spec fn host_color_of(players: Map<u64, PlayerSession>, host: u64) -> FactionColor {
    if players.contains_key(host) {
        players[host].color
    } else {
        FactionColor::Blue
    }
}

/// Platform of the host, desktop when the server knows none.
pub open spec fn host_platform_of(players: Map<u64, PlayerSession>, host: u64) -> ClientPlatform {
    if players.contains_key(host) {
        players[host].platform
    } else {
        ClientPlatform::Desktop
    }
}

/// Outcome of a solo request.
pub open spec fn solo_step(
    a: Matchmaker,
    b: Matchmaker,
    peer: u64,
    name: Seq<char>,
    color: FactionColor,
    platform: ClientPlatform,
    res: LobbyOutcome,
) -> bool {
    if count_solo(a.rooms@) >= MAX_ACTIVE_SOLO_MATCHES {
        res is SoloCapacityFull && unchanged(a, b)
    } else {
        &&& res == LobbyOutcome::SoloStarted { room_id: a.next_room_id }
        &&& b.next_room_id == a.next_room_id + 1
        &&& b.players@.dom() == a.players@.dom().insert(peer)
        &&& forall|p: u64| p != peer && #[trigger] a.players@.contains_key(p) ==> b.players@[p] == a.players@[p]
        &&& session_is(b.players@[peer], peer, name, a.next_room_id, Faction::Player1, color, platform)
        &&& exists|r: Room|
            room_is(r, a.next_room_id, None, GameMode::SoloVsAi, Some(peer), None, true)
                && b.rooms@ == upserted(a.rooms@, r)
        &&& b.connected_peers@ == a.connected_peers@
        &&& b.waiting_1v1_peer == a.waiting_1v1_peer
        &&& b.next_net_id == a.next_net_id
    }
}

/// Outcome of a 1v1 queue request.
pub open spec fn pvp_step(
    a: Matchmaker,
    b: Matchmaker,
    peer: u64,
    name: Seq<char>,
    color: FactionColor,
    platform: ClientPlatform,
    res: LobbyOutcome,
) -> bool {
    match a.waiting_1v1_peer {
        None => {
            &&& res is Queued
            &&& b.waiting_1v1_peer == Some(peer)
            &&& b.players@.dom() == a.players@.dom().insert(peer)
            &&& forall|p: u64| p != peer && #[trigger] a.players@.contains_key(p) ==> b.players@[p] == a.players@[p]
            &&& session_is(b.players@[peer], peer, name, 0, Faction::Player1, color, platform)
            &&& b.rooms@ == a.rooms@
            &&& b.connected_peers@ == a.connected_peers@
            &&& b.next_room_id == a.next_room_id
            &&& b.next_net_id == a.next_net_id
        },
        Some(host) => if count_pvp(a.rooms@) >= MAX_ACTIVE_PVP_MATCHES {
            res is PvpCapacityFull && unchanged(a, b)
        } else {
            let room_id = a.next_room_id;
            let host_color = host_color_of(a.players@, host);
            let guest_color = guest_color_for(color, host_color);
            &&& res matches LobbyOutcome::PvpMatched {
                room_id: rid,
                host_peer,
                host_name,
                host_color: hc,
                guest_color: gc,
            } && rid == room_id && host_peer == host && host_name@ == host_name_of(a.players@, host)
                && hc == host_color && gc == guest_color
            &&& b.waiting_1v1_peer is None
            &&& b.next_room_id == a.next_room_id + 1
            &&& b.players@.dom() == a.players@.dom().insert(host).insert(peer)
            &&& forall|p: u64|
                p != peer && p != host && #[trigger] a.players@.contains_key(p) ==> b.players@[p]
                    == a.players@[p]
            &&& session_is(b.players@[peer], peer, name, room_id, Faction::Player2, guest_color, platform)
            &&& peer != host ==> session_is(
                b.players@[host],
                host,
                host_name_of(a.players@, host),
                room_id,
                Faction::Player1,
                host_color,
                host_platform_of(a.players@, host),
            )
            &&& exists|r: Room|
                room_is(r, room_id, None, GameMode::Multiplayer1v1, Some(host), Some(peer), true)
                    && b.rooms@ == upserted(a.rooms@, r)
            &&& b.connected_peers@ == a.connected_peers@
            &&& b.next_net_id == a.next_net_id
        },
    }
}

/// Outcome of a private-room request, with or without a code.
pub open spec fn private_step(
    a: Matchmaker,
    b: Matchmaker,
    peer: u64,
    name: Seq<char>,
    code: Option<Seq<char>>,
    color: FactionColor,
    platform: ClientPlatform,
    res: LobbyOutcome,
) -> bool {
    match code {
        Some(c) => (ascii_text(c) ==> uppercased(trimmed(c)) == ascii_upper(trimmed(c)))
            && match index_joinable(a.rooms@, uppercased(trimmed(c)), 0) {
            None => res is PrivateRoomNotFound && unchanged(a, b),
            Some(i) => {
                let target = a.rooms@[i];
                let host = match target.p1_peer {
                    Some(h) => h,
                    None => 0,
                };
                let host_color = host_color_of(a.players@, host);
                let guest_color = guest_color_for(color, host_color);
                &&& res matches LobbyOutcome::PrivateRoomJoined {
                    room_id: rid,
                    host_peer,
                    host_name,
                    host_color: hc,
                    guest_color: gc,
                } && rid == target.room_id && host_peer == host && host_name@ == host_name_of(
                    a.players@,
                    host,
                ) && hc == host_color && gc == guest_color
                &&& b.rooms@ == a.rooms@.update(
                    i,
                    Room { p2_peer: Some(peer), is_active: true, ..target },
                )
                &&& b.players@.dom() == a.players@.dom().insert(peer)
                &&& forall|p: u64| p != peer && #[trigger] a.players@.contains_key(p) ==> b.players@[p] == a.players@[p]
                &&& session_is(
                    b.players@[peer],
                    peer,
                    name,
                    target.room_id,
                    Faction::Player2,
                    guest_color,
                    platform,
                )
                &&& b.connected_peers@ == a.connected_peers@
                &&& b.waiting_1v1_peer == a.waiting_1v1_peer
                &&& b.next_room_id == a.next_room_id
                &&& b.next_net_id == a.next_net_id
            },
        },
        None => {
            let room_id = a.next_room_id;
            let new_code = generated_code(a.rooms@, (a.next_room_id + 1) as u32);
            &&& res matches LobbyOutcome::PrivateRoomCreated { room_id: rid, code: cd } && rid
                == room_id && cd@ == new_code
            &&& b.next_room_id == a.next_room_id + 1
            &&& b.players@.dom() == a.players@.dom().insert(peer)
            &&& forall|p: u64| p != peer && #[trigger] a.players@.contains_key(p) ==> b.players@[p] == a.players@[p]
            &&& session_is(b.players@[peer], peer, name, room_id, Faction::Player1, color, platform)
            &&& exists|r: Room|
                room_is(r, room_id, Some(new_code), GameMode::CustomPrivate, Some(peer), None, false)
                    && b.rooms@ == upserted(a.rooms@, r)
            &&& b.connected_peers@ == a.connected_peers@
            &&& b.waiting_1v1_peer == a.waiting_1v1_peer
            &&& b.next_net_id == a.next_net_id
        },
    }
}

impl Matchmaker {
    fn seat_player(
        &mut self,
        peer_id: u64,
        name: String,
        room_id: u32,
        faction: Faction,
        color: FactionColor,
        platform: ClientPlatform,
    )
        ensures
            final(self).players@ == old(self).players@.insert(
                peer_id,
                PlayerSession { peer_id, name, room_id, faction, color, platform },
            ),
            final(self).rooms@ == old(self).rooms@,
            final(self).connected_peers@ == old(self).connected_peers@,
            final(self).waiting_1v1_peer == old(self).waiting_1v1_peer,
            final(self).next_room_id == old(self).next_room_id,
            final(self).next_net_id == old(self).next_net_id,
    {
        self.players.insert(
            peer_id,
            PlayerSession { peer_id, name, room_id, faction, color, platform },
        );
    }

    /// Name, colour and platform that the server knows of `host`.
    fn host_details(&self, host: u64) -> (res: (String, FactionColor, ClientPlatform))
        ensures
            res.0@ == host_name_of(self.players@, host),
            res.1 == host_color_of(self.players@, host),
            res.2 == host_platform_of(self.players@, host),
    {
        match self.players.get(&host) {
            Some(p) => (p.name.clone(), p.color, p.platform),
            None => ("Commander 1".to_owned(), FactionColor::Blue, ClientPlatform::Desktop),
        }
    }

    fn join_solo(
        &mut self,
        peer_id: u64,
        player_name: String,
        color: FactionColor,
        platform: ClientPlatform,
    ) -> (res: LobbyOutcome)
        requires
            count_solo(old(self).rooms@) < MAX_ACTIVE_SOLO_MATCHES ==> old(self).next_room_id
                < u32::MAX,
        ensures
            solo_step(*old(self), *final(self), peer_id, player_name@, color, platform, res),
    {
        if !self.can_start_solo() {
            return LobbyOutcome::SoloCapacityFull;
        }
        let ghost a = *self;
        let room_id = self.next_room_id;
        self.next_room_id = self.next_room_id + 1;
        self.seat_player(peer_id, player_name, room_id, Faction::Player1, color, platform);
        let room = Room::new(room_id, None, GameMode::SoloVsAi, Some(peer_id), None);
        let ghost r = room;
        self.insert_room(room);
        proof {
            assert(room_is(r, a.next_room_id, None, GameMode::SoloVsAi, Some(peer_id), None, true));
            assert(self.players@.dom() =~= a.players@.dom().insert(peer_id));
            assert(self.rooms@ == upserted(a.rooms@, r));
            assert(session_is(self.players@[peer_id], peer_id, player_name@, a.next_room_id, Faction::Player1, color, platform));
            assert(forall|p: u64| p != peer_id && #[trigger] a.players@.contains_key(p) ==> self.players@[p] == a.players@[p]);
            assert(count_solo(a.rooms@) < MAX_ACTIVE_SOLO_MATCHES);
        }
        LobbyOutcome::SoloStarted { room_id }
    }

    fn join_pvp(
        &mut self,
        peer_id: u64,
        player_name: String,
        color: FactionColor,
        platform: ClientPlatform,
    ) -> (res: LobbyOutcome)
        requires
            old(self).waiting_1v1_peer is Some && count_pvp(old(self).rooms@) < MAX_ACTIVE_PVP_MATCHES
                ==> old(self).next_room_id < u32::MAX,
        ensures
            pvp_step(*old(self), *final(self), peer_id, player_name@, color, platform, res),
    {
        let ghost a = *self;
        match self.waiting_1v1_peer {
            Some(host) => {
                if !self.can_start_pvp() {
                    return LobbyOutcome::PvpCapacityFull;
                }
                self.waiting_1v1_peer = None;
                let room_id = self.next_room_id;
                self.next_room_id = self.next_room_id + 1;
                let (host_name, host_color, host_platform) = self.host_details(host);
                let guest_color = if color == host_color {
                    FactionColor::Red
                } else {
                    color
                };
                self.seat_player(
                    host,
                    host_name.clone(),
                    room_id,
                    Faction::Player1,
                    host_color,
                    host_platform,
                );
                self.seat_player(peer_id, player_name, room_id, Faction::Player2, guest_color, platform);
                let room = Room::new(
                    room_id,
                    None,
                    GameMode::Multiplayer1v1,
                    Some(host),
                    Some(peer_id),
                );
                let ghost r = room;
                self.insert_room(room);
                proof {
                    assert(room_is(
                        r,
                        room_id,
                        None,
                        GameMode::Multiplayer1v1,
                        Some(host),
                        Some(peer_id),
                        true,
                    ));
                    assert(self.players@.dom() =~= a.players@.dom().insert(host).insert(peer_id));
                    assert(self.rooms@ == upserted(a.rooms@, r));
                    assert(forall|p: u64|
                        p != peer_id && p != host && #[trigger] a.players@.contains_key(p)
                            ==> self.players@[p] == a.players@[p]);
                    assert(session_is(
                        self.players@[peer_id],
                        peer_id,
                        player_name@,
                        room_id,
                        Faction::Player2,
                        guest_color,
                        platform,
                    ));
                }
                LobbyOutcome::PvpMatched { room_id, host_peer: host, host_name, host_color, guest_color }
            },
            None => {
                self.waiting_1v1_peer = Some(peer_id);
                self.seat_player(peer_id, player_name, 0, Faction::Player1, color, platform);
                proof {
                    assert(self.players@.dom() =~= a.players@.dom().insert(peer_id));
                    assert(forall|p: u64|
                        p != peer_id && #[trigger] a.players@.contains_key(p) ==> self.players@[p]
                            == a.players@[p]);
                }
                LobbyOutcome::Queued
            },
        }
    }

    fn join_private(
        &mut self,
        peer_id: u64,
        player_name: String,
        room_code: Option<String>,
        color: FactionColor,
        platform: ClientPlatform,
    ) -> (res: LobbyOutcome)
        requires
            room_code is None ==> old(self).next_room_id < u32::MAX,
        ensures
            private_step(
                *old(self),
                *final(self),
                peer_id,
                player_name@,
                match room_code {
                    Some(c) => Some(c@),
                    None => None,
                },
                color,
                platform,
                res,
            ),
    {
        let ghost a = *self;
        match room_code {
            Some(code) => {
                let trimmed_code = trim_str(code.as_str());
                proof {
                    if ascii_text(code@) {
                        lemma_trimmed_stays_ascii(code@);
                    }
                }
                let upper = to_upper(trimmed_code);
                match self.joinable_index(&upper) {
                    Some(idx) => {
                        let mut room = self.rooms.remove(idx);
                        let target_room_id = room.room_id;
                        let host = match room.p1_peer {
                            Some(h) => h,
                            None => 0,
                        };
                        room.p2_peer = Some(peer_id);
                        room.is_active = true;
                        self.rooms.insert(idx, room);
                        proof {
                            assert(self.rooms@ =~= a.rooms@.update(
                                idx as int,
                                Room { p2_peer: Some(peer_id), is_active: true, ..a.rooms@[idx as int] },
                            ));
                        }
                        let (host_name, host_color, _host_platform) = self.host_details(host);
                        let guest_color = if color == host_color {
                            FactionColor::Red
                        } else {
                            color
                        };
                        self.seat_player(
                            peer_id,
                            player_name,
                            target_room_id,
                            Faction::Player2,
                            guest_color,
                            platform,
                        );
                        proof {
                            assert(self.players@.dom() =~= a.players@.dom().insert(peer_id));
                            assert(forall|p: u64|
                                p != peer_id && #[trigger] a.players@.contains_key(p)
                                    ==> self.players@[p] == a.players@[p]);
                        }
                        LobbyOutcome::PrivateRoomJoined {
                            room_id: target_room_id,
                            host_peer: host,
                            host_name,
                            host_color,
                            guest_color,
                        }
                    },
                    None => LobbyOutcome::PrivateRoomNotFound,
                }
            },
            None => {
                let room_id = self.next_room_id;
                self.next_room_id = self.next_room_id + 1;
                let generated = self.generate_room_code();
                let ghost code_seq = generated@;
                self.seat_player(peer_id, player_name, room_id, Faction::Player1, color, platform);
                let mut room = Room::new(
                    room_id,
                    Some(generated.clone()),
                    GameMode::CustomPrivate,
                    Some(peer_id),
                    None,
                );
                room.is_active = false;
                let ghost r = room;
                self.insert_room(room);
                proof {
                    assert(room_is(
                        r,
                        room_id,
                        Some(code_seq),
                        GameMode::CustomPrivate,
                        Some(peer_id),
                        None,
                        false,
                    ));
                    assert(self.players@.dom() =~= a.players@.dom().insert(peer_id));
                    assert(self.rooms@ == upserted(a.rooms@, r));
                    assert(forall|p: u64|
                        p != peer_id && #[trigger] a.players@.contains_key(p) ==> self.players@[p]
                            == a.players@[p]);
                }
                LobbyOutcome::PrivateRoomCreated { room_id, code: generated }
            },
        }
    }

    /// Handles a lobby request: a solo match, the 1v1 queue, or a private room (created, or
    /// joined with its code).
    pub fn join_lobby(
        &mut self,
        peer_id: u64,
        player_name: String,
        mode: GameMode,
        room_code: Option<String>,
        faction_color: Option<FactionColor>,
        platform: ClientPlatform,
    ) -> (res: LobbyOutcome)
        requires
            mode == GameMode::SoloVsAi && count_solo(old(self).rooms@) < MAX_ACTIVE_SOLO_MATCHES
                ==> old(self).next_room_id < u32::MAX,
            mode == GameMode::Multiplayer1v1 && old(self).waiting_1v1_peer is Some && count_pvp(
                old(self).rooms@,
            ) < MAX_ACTIVE_PVP_MATCHES ==> old(self).next_room_id < u32::MAX,
            mode == GameMode::CustomPrivate && room_code is None ==> old(self).next_room_id
                < u32::MAX,
        ensures
            mode == GameMode::SoloVsAi ==> solo_step(
                *old(self),
                *final(self),
                peer_id,
                player_name@,
                color_or_blue(faction_color),
                platform,
                res,
            ),
            mode == GameMode::Multiplayer1v1 ==> pvp_step(
                *old(self),
                *final(self),
                peer_id,
                player_name@,
                color_or_blue(faction_color),
                platform,
                res,
            ),
            mode == GameMode::CustomPrivate ==> private_step(
                *old(self),
                *final(self),
                peer_id,
                player_name@,
                match room_code {
                    Some(c) => Some(c@),
                    None => None,
                },
                color_or_blue(faction_color),
                platform,
                res,
            ),
    {
        let color = match faction_color {
            Some(c) => c,
            None => FactionColor::Blue,
        };
        match mode {
            GameMode::SoloVsAi => self.join_solo(peer_id, player_name, color, platform),
            GameMode::Multiplayer1v1 => self.join_pvp(peer_id, player_name, color, platform),
            GameMode::CustomPrivate => self.join_private(
                peer_id,
                player_name,
                room_code,
                color,
                platform,
            ),
        }
    }
}

proof fn lemma_update_keeps_index(rooms: Seq<Room>, i: int, r: Room, from: int)
    requires
        index_of_room(rooms, r.room_id, 0) == Some(i),
        0 <= from <= i,
        index_of_room(rooms, r.room_id, from) == Some(i),
    ensures
        index_of_room(rooms.update(i, r), r.room_id, from) == Some(i),
    decreases i - from,
{
    crate::matchmaker::lemma_index_of_room(rooms, r.room_id, from);
    if from < i {
        lemma_update_keeps_index(rooms, i, r, from + 1);
    }
}

proof fn lemma_push_finds(rooms: Seq<Room>, r: Room, from: int)
    requires
        0 <= from <= rooms.len(),
        index_of_room(rooms, r.room_id, from) is None,
    ensures
        index_of_room(rooms.push(r), r.room_id, from) == Some(rooms.len() as int),
    decreases rooms.len() - from,
{
    if from < rooms.len() {
        lemma_push_finds(rooms, r, from + 1);
    }
}

/// After a room is put in, looking its id up finds that very room.
pub proof fn law_upserted_room_found(rooms: Seq<Room>, r: Room)
    ensures
        room_by_id(upserted(rooms, r), r.room_id) == Some(r),
{
    crate::matchmaker::lemma_index_of_room(rooms, r.room_id, 0);
    match index_of_room(rooms, r.room_id, 0) {
        Some(i) => {
            lemma_update_keeps_index(rooms, i, r, 0);
        },
        None => {
            lemma_push_finds(rooms, r, 0);
        },
    }
}

/// A player who starts a solo match sits in the new room, which seats that player alone.
pub proof fn law_solo_join_seats_player(
    a: Matchmaker,
    b: Matchmaker,
    peer: u64,
    name: Seq<char>,
    color: FactionColor,
    platform: ClientPlatform,
    res: LobbyOutcome,
)
    requires
        solo_step(a, b, peer, name, color, platform, res),
        res is SoloStarted,
    ensures
        b.players@.contains_key(peer),
        b.players@[peer].room_id == res->SoloStarted_room_id,
        room_by_id(b.rooms@, res->SoloStarted_room_id) matches Some(r) && seated(r) == seq![peer],
{
    let r = choose|r: Room|
        room_is(r, a.next_room_id, None, GameMode::SoloVsAi, Some(peer), None, true)
            && b.rooms@ == upserted(a.rooms@, r);
    law_upserted_room_found(a.rooms@, r);
    assert(seated(r) =~= seq![peer]);
}

/// Two players paired from the queue sit in the same new room, the host as Player 1.
pub proof fn law_pvp_match_seats_both(
    a: Matchmaker,
    b: Matchmaker,
    peer: u64,
    name: Seq<char>,
    color: FactionColor,
    platform: ClientPlatform,
    res: LobbyOutcome,
)
    requires
        pvp_step(a, b, peer, name, color, platform, res),
        res is PvpMatched,
    ensures
        ({
            let room_id = res->PvpMatched_room_id;
            let host = res->PvpMatched_host_peer;
            &&& b.players@[peer].room_id == room_id
            &&& b.players@[peer].faction == Faction::Player2
            &&& peer != host ==> b.players@[host].room_id == room_id && b.players@[host].faction
                == Faction::Player1
            &&& room_by_id(b.rooms@, room_id) matches Some(r) && seated(r) == seq![host, peer]
            &&& b.waiting_1v1_peer is None
        }),
{
    let host = a.waiting_1v1_peer->Some_0;
    let r = choose|r: Room|
        room_is(r, a.next_room_id, None, GameMode::Multiplayer1v1, Some(host), Some(peer), true)
            && b.rooms@ == upserted(a.rooms@, r);
    law_upserted_room_found(a.rooms@, r);
    assert(seated(r) =~= seq![host, peer]);
}

/// When no room holds the fresh room id, starting a solo match adds exactly one running solo
/// room, so the number of solo matches never exceeds its limit.
pub proof fn law_solo_capacity(
    a: Matchmaker,
    b: Matchmaker,
    peer: u64,
    name: Seq<char>,
    color: FactionColor,
    platform: ClientPlatform,
    res: LobbyOutcome,
)
    requires
        solo_step(a, b, peer, name, color, platform, res),
        index_of_room(a.rooms@, a.next_room_id, 0) is None,
        count_solo(a.rooms@) <= MAX_ACTIVE_SOLO_MATCHES,
    ensures
        count_solo(b.rooms@) <= MAX_ACTIVE_SOLO_MATCHES,
        res is SoloStarted ==> count_solo(b.rooms@) == count_solo(a.rooms@) + 1,
{
    if res is SoloStarted {
        let r = choose|r: Room|
            room_is(r, a.next_room_id, None, GameMode::SoloVsAi, Some(peer), None, true)
                && b.rooms@ == upserted(a.rooms@, r);
        assert(b.rooms@.drop_last() =~= a.rooms@);
    }
}

/// Room ids are unique, and each is below the id that the matchmaker hands out next.
pub open spec fn rooms_consistent(rooms: Seq<Room>, next_room_id: u32) -> bool {
    &&& ids_unique(rooms)
    &&& forall|k: int| 0 <= k < rooms.len() ==> (#[trigger] rooms[k]).room_id < next_room_id
}

/// A found joinable index lies within the rooms.
proof fn lemma_index_joinable(rooms: Seq<Room>, code: Seq<char>, from: int)
    ensures
        index_joinable(rooms, code, from) matches Some(i) ==> from <= i < rooms.len(),
    decreases rooms.len() - from,
{
    if 0 <= from < rooms.len() && !crate::matchmaker::joinable_with(rooms[from], code) {
        lemma_index_joinable(rooms, code, from + 1);
    }
}

/// Putting in a room with the next id appends it and keeps the rooms consistent.
proof fn lemma_add_next_room(rooms: Seq<Room>, next_room_id: u32, r: Room)
    requires
        rooms_consistent(rooms, next_room_id),
        r.room_id == next_room_id,
        next_room_id < u32::MAX,
    ensures
        upserted(rooms, r) == rooms.push(r),
        rooms_consistent(rooms.push(r), (next_room_id + 1) as u32),
{
    lemma_no_index(rooms, next_room_id, 0);
    let out = rooms.push(r);
    assert forall|i: int, j: int| 0 <= i < j < out.len() implies (#[trigger] out[i]).room_id
        != (#[trigger] out[j]).room_id by {
        if j < rooms.len() {
            assert(out[i] == rooms[i] && out[j] == rooms[j]);
        } else {
            assert(out[i] == rooms[i]);
        }
    }
}

/// Every lobby request keeps the rooms consistent: ids stay unique and below the next id.
pub proof fn law_join_keeps_rooms_consistent(
    a: Matchmaker,
    b: Matchmaker,
    peer: u64,
    name: Seq<char>,
    mode: GameMode,
    code: Option<Seq<char>>,
    color: FactionColor,
    platform: ClientPlatform,
    res: LobbyOutcome,
)
    requires
        rooms_consistent(a.rooms@, a.next_room_id),
        mode == GameMode::SoloVsAi ==> solo_step(a, b, peer, name, color, platform, res),
        mode == GameMode::Multiplayer1v1 ==> pvp_step(a, b, peer, name, color, platform, res),
        mode == GameMode::CustomPrivate ==> private_step(a, b, peer, name, code, color, platform, res),
    ensures
        rooms_consistent(b.rooms@, b.next_room_id),
{
    if b.rooms@ != a.rooms@ || b.next_room_id != a.next_room_id {
        if b.next_room_id == a.next_room_id + 1 {
            let r = choose|r: Room|
                r.room_id == a.next_room_id && b.rooms@ == upserted(a.rooms@, r);
            lemma_add_next_room(a.rooms@, a.next_room_id, r);
        } else {
            let c = code->Some_0;
            let i = index_joinable(a.rooms@, uppercased(trimmed(c)), 0)->Some_0;
            lemma_index_joinable(a.rooms@, uppercased(trimmed(c)), 0);
            let target = a.rooms@[i];
            let out = a.rooms@.update(i, Room { p2_peer: b.rooms@[i].p2_peer, is_active: true, ..target });
            assert(b.rooms@ == out);
            assert forall|x: int, y: int| 0 <= x < y < out.len() implies (#[trigger] out[x]).room_id
                != (#[trigger] out[y]).room_id by {
                assert(a.rooms@[x].room_id != a.rooms@[y].room_id);
            }
            assert forall|k: int| 0 <= k < out.len() implies (#[trigger] out[k]).room_id
                < b.next_room_id by {
                assert(a.rooms@[k].room_id < a.next_room_id);
            }
        }
    }
}

/// No room from `from` on is one that a player with `code` may join.
proof fn lemma_none_joinable(rooms: Seq<Room>, code: Seq<char>, from: int, k: int)
    requires
        0 <= from <= k < rooms.len(),
        index_joinable(rooms, code, from) is None,
    ensures
        !joinable_with(rooms[k], code),
    decreases k - from,
{
    if from < k {
        lemma_none_joinable(rooms, code, from + 1, k);
    }
}

/// The first joinable room from `from` on is the one at `j` when none before it is.
proof fn lemma_first_joinable(rooms: Seq<Room>, code: Seq<char>, from: int, j: int)
    requires
        0 <= from <= j < rooms.len(),
        joinable_with(rooms[j], code),
        forall|k: int| from <= k < j ==> !joinable_with(#[trigger] rooms[k], code),
    ensures
        index_joinable(rooms, code, from) == Some(j),
    decreases j - from,
{
    if from < j {
        lemma_first_joinable(rooms, code, from + 1, j);
    }
}

/// The code that a new private room hands out opens that room: a second player who asks with
/// it (or with the same code in lower case, or with white space around it) takes the second
/// seat of that very room, whose host is the player who made it. This holds unless a room
/// that was waiting before already answers to the same code.
pub proof fn law_private_code_opens_room(
    a: Matchmaker,
    b: Matchmaker,
    c: Matchmaker,
    host: u64,
    host_name: Seq<char>,
    host_color: FactionColor,
    host_platform: ClientPlatform,
    created: LobbyOutcome,
    guest: u64,
    guest_name: Seq<char>,
    typed: Seq<char>,
    guest_color: FactionColor,
    guest_platform: ClientPlatform,
    joined: LobbyOutcome,
)
    requires
        private_step(a, b, host, host_name, None, host_color, host_platform, created),
        private_step(b, c, guest, guest_name, Some(typed), guest_color, guest_platform, joined),
        ascii_text(typed),
        ascii_upper(trimmed(typed)) == created->PrivateRoomCreated_code@,
        index_joinable(a.rooms@, created->PrivateRoomCreated_code@, 0) is None,
    ensures
        joined matches LobbyOutcome::PrivateRoomJoined { room_id, host_peer, .. }
            && room_id == created->PrivateRoomCreated_room_id && host_peer == host,
        c.players@.contains_key(guest),
        c.players@[guest].room_id == created->PrivateRoomCreated_room_id,
        c.players@[guest].faction == Faction::Player2,
{
    let code = created->PrivateRoomCreated_code@;
    let r = choose|r: Room|
        room_is(r, a.next_room_id, Some(code), GameMode::CustomPrivate, Some(host), None, false)
            && b.rooms@ == upserted(a.rooms@, r);
    assert(joinable_with(r, code));
    crate::matchmaker::lemma_index_of_room(a.rooms@, r.room_id, 0);
    let j = match index_of_room(a.rooms@, r.room_id, 0) {
        Some(i) => i,
        None => a.rooms@.len() as int,
    };
    assert(b.rooms@[j] == r);
    assert forall|k: int| 0 <= k < j implies !joinable_with(#[trigger] b.rooms@[k], code) by {
        assert(b.rooms@[k] == a.rooms@[k]);
        lemma_none_joinable(a.rooms@, code, 0, k);
    }
    lemma_first_joinable(b.rooms@, code, 0, j);
}

/// Joining a private room by code never takes a seat that is already taken: every room whose
/// second seat was occupied is left exactly as it was, and a successful join seats the player
/// in a private room that was waiting for a second player, as its second player.
pub proof fn law_join_takes_only_free_seats(
    a: Matchmaker,
    b: Matchmaker,
    peer: u64,
    name: Seq<char>,
    code: Seq<char>,
    color: FactionColor,
    platform: ClientPlatform,
    res: LobbyOutcome,
)
    requires
        private_step(a, b, peer, name, Some(code), color, platform, res),
    ensures
        b.rooms@.len() == a.rooms@.len(),
        forall|i: int|
            0 <= i < a.rooms@.len() && (#[trigger] a.rooms@[i]).p2_peer is Some ==> b.rooms@[i]
                == a.rooms@[i],
        res matches LobbyOutcome::PrivateRoomJoined { room_id, .. } ==> exists|i: int|
            0 <= i < a.rooms@.len() && (#[trigger] a.rooms@[i]).room_id == room_id
                && a.rooms@[i].p2_peer is None && a.rooms@[i].mode == GameMode::CustomPrivate
                && b.rooms@[i].p2_peer == Some(peer),
{
    crate::matchmaker::law_lookup_finds_only_open_rooms(a.rooms@, uppercased(trimmed(code)), 0);
    lemma_index_joinable(a.rooms@, uppercased(trimmed(code)), 0);
    if let Some(i) = index_joinable(a.rooms@, uppercased(trimmed(code)), 0) {
        assert(b.rooms@[i].p2_peer == Some(peer));
        assert(a.rooms@[i].room_id == a.rooms@[i].room_id);
    }
}

/// A player leaving keeps the rooms consistent.
pub proof fn law_leave_keeps_rooms_consistent(rooms: Seq<Room>, next_room_id: u32, id: u32)
    requires
        rooms_consistent(rooms, next_room_id),
    ensures
        rooms_consistent(rooms_without(rooms, id), next_room_id),
{
    crate::matchmaker::lemma_index_of_room(rooms, id, 0);
    match index_of_room(rooms, id, 0) {
        Some(i) => {
            let out = rooms.remove(i);
            assert forall|x: int, y: int| 0 <= x < y < out.len() implies (#[trigger] out[x]).room_id
                != (#[trigger] out[y]).room_id by {
                let xi = if x < i { x } else { x + 1 };
                let yi = if y < i { y } else { y + 1 };
                assert(out[x] == rooms[xi] && out[y] == rooms[yi]);
                assert(rooms[xi].room_id != rooms[yi].room_id);
            }
            assert forall|k: int| 0 <= k < out.len() implies (#[trigger] out[k]).room_id
                < next_room_id by {
                let ki = if k < i { k } else { k + 1 };
                assert(out[k] == rooms[ki]);
            }
        },
        None => {},
    }
}

} // verus!
