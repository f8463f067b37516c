use vstd::prelude::*;
use std::collections::{HashMap, HashSet};
use crate::economy::{after_register_supply, starting_economy, PlayerEconomy, FactionEconomy};
use crate::faction::Faction;
use crate::rules::{match_winner, winner_spec};
use crate::kinds::{ClientPlatform, FactionColor, GameMode};
use crate::text::{
    ascii_lower, ascii_text, ascii_upper, ascii_upper_char, law_case_is_ignored,
    lemma_trimmed_stays_ascii, push_char, strip_leading_blanks, strip_trailing_blanks, to_upper,
    trim_str, trimmed, uppercased,
};

verus! {

broadcast use vstd::std_specs::hash::group_hash_axioms;

/// Most 1v1 matches (queued or private) that may run at once.
pub const MAX_ACTIVE_PVP_MATCHES: usize = 10;

/// Most solo matches that may run at once.
pub const MAX_ACTIVE_SOLO_MATCHES: usize = 10;

/// Character `i` of the room-code alphabet (no `I`, `O`, `0` or `1`).
pub open spec fn code_char(i: int) -> char {
    if i == 0 {
        'A'
    } else if i == 1 {
        'B'
    } else if i == 2 {
        'C'
    } else if i == 3 {
        'D'
    } else if i == 4 {
        'E'
    } else if i == 5 {
        'F'
    } else if i == 6 {
        'G'
    } else if i == 7 {
        'H'
    } else if i == 8 {
        'J'
    } else if i == 9 {
        'K'
    } else if i == 10 {
        'L'
    } else if i == 11 {
        'M'
    } else if i == 12 {
        'N'
    } else if i == 13 {
        'P'
    } else if i == 14 {
        'Q'
    } else if i == 15 {
        'R'
    } else if i == 16 {
        'S'
    } else if i == 17 {
        'T'
    } else if i == 18 {
        'U'
    } else if i == 19 {
        'V'
    } else if i == 20 {
        'W'
    } else if i == 21 {
        'X'
    } else if i == 22 {
        'Y'
    } else if i == 23 {
        'Z'
    } else if i == 24 {
        '2'
    } else if i == 25 {
        '3'
    } else if i == 26 {
        '4'
    } else if i == 27 {
        '5'
    } else if i == 28 {
        '6'
    } else if i == 29 {
        '7'
    } else if i == 30 {
        '8'
    } else {
        '9'
    }
}

/// Character `i` of the room-code alphabet.
fn room_code_char(i: u32) -> (c: char)
    requires
        i < 32,
    ensures
        c == code_char(i as int),
{
    match i {
        0 => 'A',
        1 => 'B',
        2 => 'C',
        3 => 'D',
        4 => 'E',
        5 => 'F',
        6 => 'G',
        7 => 'H',
        8 => 'J',
        9 => 'K',
        10 => 'L',
        11 => 'M',
        12 => 'N',
        13 => 'P',
        14 => 'Q',
        15 => 'R',
        16 => 'S',
        17 => 'T',
        18 => 'U',
        19 => 'V',
        20 => 'W',
        21 => 'X',
        22 => 'Y',
        23 => 'Z',
        24 => '2',
        25 => '3',
        26 => '4',
        27 => '5',
        28 => '6',
        29 => '7',
        30 => '8',
        _ => '9',
    }
}

/// Upper-case hexadecimal digit of `d`.
pub open spec fn hex_digit(d: int) -> char {
    if d == 0 {
        '0'
    } else if d == 1 {
        '1'
    } else if d == 2 {
        '2'
    } else if d == 3 {
        '3'
    } else if d == 4 {
        '4'
    } else if d == 5 {
        '5'
    } else if d == 6 {
        '6'
    } else if d == 7 {
        '7'
    } else if d == 8 {
        '8'
    } else if d == 9 {
        '9'
    } else if d == 10 {
        'A'
    } else if d == 11 {
        'B'
    } else if d == 12 {
        'C'
    } else if d == 13 {
        'D'
    } else if d == 14 {
        'E'
    } else {
        'F'
    }
}

/// Upper-case hexadecimal digit of `d`.
pub(crate) fn hex_digit_char(d: u32) -> (c: char)
    requires
        d < 16,
    ensures
        c == hex_digit(d as int),
{
    match d {
        0 => '0',
        1 => '1',
        2 => '2',
        3 => '3',
        4 => '4',
        5 => '5',
        6 => '6',
        7 => '7',
        8 => '8',
        9 => '9',
        10 => 'A',
        11 => 'B',
        12 => 'C',
        13 => 'D',
        14 => 'E',
        _ => 'F',
    }
}

/// A connected player and the seat it holds.
#[derive(Debug, Clone)]
pub struct PlayerSession {
    pub peer_id: u64,
    pub name: String,
    pub room_id: u32,
    pub faction: Faction,
    pub color: FactionColor,
    pub platform: ClientPlatform,
}

/// A match room.
#[derive(Debug, Clone)]
pub struct Room {
    pub room_id: u32,
    pub room_code: Option<String>,
    pub mode: GameMode,
    pub p1_peer: Option<u64>,
    pub p2_peer: Option<u64>,
    pub is_active: bool,
    pub current_wave: u32,
    pub economy: PlayerEconomy,
}

/// The faction that plays against Player 1 in a mode.
pub open spec fn opponent_faction(mode: GameMode) -> Faction {
    match mode {
        GameMode::SoloVsAi => Faction::HostileAi,
        _ => Faction::Player2,
    }
}

/// The faction that plays against Player 1 in a mode.
pub fn opponent_of(mode: GameMode) -> (f: Faction)
    ensures
        f == opponent_faction(mode),
{
    match mode {
        GameMode::SoloVsAi => Faction::HostileAi,
        GameMode::Multiplayer1v1 | GameMode::CustomPrivate => Faction::Player2,
    }
}

/// The economy a room starts with: two workers (two supply) on each side.
pub open spec fn room_start_economy(mode: GameMode) -> Map<Faction, FactionEconomy> {
    after_register_supply(
        after_register_supply(
            map![
                Faction::Player1 => starting_economy(),
                Faction::Player2 => starting_economy(),
                Faction::HostileAi => starting_economy(),
            ],
            Faction::Player1,
            2,
        ),
        opponent_faction(mode),
        2,
    )
}

impl Room {
    /// A fresh, active room with the starting economy.
    pub fn new(
        room_id: u32,
        room_code: Option<String>,
        mode: GameMode,
        p1_peer: Option<u64>,
        p2_peer: Option<u64>,
    ) -> (res: Self)
        ensures
            res.room_id == room_id,
            res.room_code == room_code,
            res.mode == mode,
            res.p1_peer == p1_peer,
            res.p2_peer == p2_peer,
            res.is_active,
            res.current_wave == 0,
            res.economy@ == room_start_economy(mode),
    {
        let mut economy = PlayerEconomy::new();
        economy.register_supply(Faction::Player1, 2);
        economy.register_supply(opponent_of(mode), 2);
        Room {
            room_id,
            room_code,
            mode,
            p1_peer,
            p2_peer,
            is_active: true,
            current_wave: 0,
            economy,
        }
    }
}

/// Index of the first room at or after `from` that has id `id`.
pub open spec fn index_of_room(rooms: Seq<Room>, id: u32, from: int) -> Option<int>
    decreases rooms.len() - from,
{
    if from < 0 || from >= rooms.len() {
        None
    } else if rooms[from].room_id == id {
        Some(from)
    } else {
        index_of_room(rooms, id, from + 1)
    }
}

/// A found index points at a room with that id, at or after `from`.
pub proof fn lemma_index_of_room(rooms: Seq<Room>, id: u32, from: int)
    ensures
        index_of_room(rooms, id, from) matches Some(i) ==> from <= i < rooms.len()
            && rooms[i].room_id == id,
    decreases rooms.len() - from,
{
    if 0 <= from < rooms.len() && rooms[from].room_id != id {
        lemma_index_of_room(rooms, id, from + 1);
    }
}

/// The room with id `id`, if any (the first one, should ids repeat).
pub open spec fn room_by_id(rooms: Seq<Room>, id: u32) -> Option<Room> {
    match index_of_room(rooms, id, 0) {
        Some(i) => Some(rooms[i]),
        None => None,
    }
}

/// A room that a player with code `code` may join: private, waiting for its second player.
pub open spec fn joinable_with(r: Room, code: Seq<char>) -> bool {
    &&& has_code(r, code)
    &&& r.p2_peer is None
    &&& r.mode == GameMode::CustomPrivate
}

/// Index of the first room at or after `from` that a player with `code` may join.
pub open spec fn index_joinable(rooms: Seq<Room>, code: Seq<char>, from: int) -> Option<int>
    decreases rooms.len() - from,
{
    if from < 0 || from >= rooms.len() {
        None
    } else if joinable_with(rooms[from], code) {
        Some(from)
    } else {
        index_joinable(rooms, code, from + 1)
    }
}

/// A 1v1 room (queued or private) that is running.
pub open spec fn is_active_pvp(r: Room) -> bool {
    (r.mode == GameMode::Multiplayer1v1 || r.mode == GameMode::CustomPrivate) && r.is_active
}

/// A solo room that is running.
pub open spec fn is_active_solo(r: Room) -> bool {
    r.mode == GameMode::SoloVsAi && r.is_active
}

/// Number of running 1v1 rooms.
pub open spec fn count_pvp(rooms: Seq<Room>) -> nat
    decreases rooms.len(),
{
    if rooms.len() == 0 {
        0
    } else {
        count_pvp(rooms.drop_last()) + if is_active_pvp(rooms.last()) {
            1nat
        } else {
            0nat
        }
    }
}

/// Number of running solo rooms.
pub open spec fn count_solo(rooms: Seq<Room>) -> nat
    decreases rooms.len(),
{
    if rooms.len() == 0 {
        0
    } else {
        count_solo(rooms.drop_last()) + if is_active_solo(rooms.last()) {
            1nat
        } else {
            0nat
        }
    }
}

/// Peers seated in a room, Player 1 first.
pub open spec fn seated(r: Room) -> Seq<u64> {
    let first = match r.p1_peer {
        Some(p) => seq![p],
        None => Seq::empty(),
    };
    match r.p2_peer {
        Some(p) => first.push(p),
        None => first,
    }
}

/// Seed of the room-code generator for the next room id (32-bit arithmetic that wraps around).
pub open spec fn code_seed(next_room_id: u32) -> u32 {
    vstd::wrapping::u32_specs::wrapping_add(
        vstd::wrapping::u32_specs::wrapping_mul(next_room_id, 1103515245),
        12345,
    )
}

/// The number behind the hexadecimal fallback code (32-bit arithmetic that wraps around).
pub open spec fn fallback_value(next_room_id: u32) -> u32 {
    (vstd::wrapping::u32_specs::wrapping_mul(next_room_id, 7919) % 65535) as u32
}

/// The four-character code derived from the next room id.
pub open spec fn code_candidate(next_room_id: u32) -> Seq<char> {
    let seed = code_seed(next_room_id);
    seq![
        code_char(((seed >> 0u32) % 32) as int),
        code_char(((seed >> 4u32) % 32) as int),
        code_char(((seed >> 8u32) % 32) as int),
        code_char(((seed >> 12u32) % 32) as int),
    ]
}

/// `v` as four upper-case hexadecimal digits.
pub open spec fn hex4(v: u32) -> Seq<char> {
    seq![
        hex_digit(((v >> 12u32) % 16) as int),
        hex_digit(((v >> 8u32) % 16) as int),
        hex_digit(((v >> 4u32) % 16) as int),
        hex_digit((v % 16) as int),
    ]
}

/// The room carries the code `code`.
pub open spec fn has_code(r: Room, code: Seq<char>) -> bool {
    r.room_code matches Some(c) && c@ == code
}

/// Some room already uses `code`.
pub open spec fn code_in_use(rooms: Seq<Room>, code: Seq<char>) -> bool {
    exists|i: int| 0 <= i < rooms.len() && has_code(#[trigger] rooms[i], code)
}

/// The code that the generator hands out: the derived code, or when a room uses it already, a
/// hexadecimal fallback.
pub open spec fn generated_code(rooms: Seq<Room>, next_room_id: u32) -> Seq<char> {
    if code_in_use(rooms, code_candidate(next_room_id)) {
        hex4(fallback_value(next_room_id))
    } else {
        code_candidate(next_room_id)
    }
}

/// An upper-case ASCII letter or a decimal digit.
pub open spec fn is_code_symbol(c: char) -> bool {
    ('A' <= c && c <= 'Z') || ('0' <= c && c <= '9')
}

/// Every room code that the generator hands out has four characters, each an upper-case letter
/// or a digit.
pub proof fn law_room_code_shape(rooms: Seq<Room>, next_room_id: u32)
    ensures
        generated_code(rooms, next_room_id).len() == 4,
        forall|k: int|
            0 <= k < 4 ==> is_code_symbol(#[trigger] generated_code(rooms, next_room_id)[k]),
{
}

/// A generated room code is its own lookup key: it is ASCII, has no white space at either end,
/// and is already in upper case.
pub proof fn law_generated_code_is_canonical(rooms: Seq<Room>, next_room_id: u32)
    ensures
        ascii_text(generated_code(rooms, next_room_id)),
        ascii_upper(trimmed(generated_code(rooms, next_room_id))) == generated_code(
            rooms,
            next_room_id,
        ),
{
    let g = generated_code(rooms, next_room_id);
    law_room_code_shape(rooms, next_room_id);
    assert(is_code_symbol(g[0]));
    assert(is_code_symbol(g[3]));
    assert(strip_leading_blanks(g) == g);
    assert(g.last() == g[3]);
    assert(strip_trailing_blanks(g) == g);
    assert(ascii_upper(g) =~= g) by {
        assert forall|k: int| 0 <= k < 4 implies ascii_upper_char(#[trigger] g[k]) == g[k] by {
            assert(is_code_symbol(g[k]));
        }
    }
    assert forall|i: int| 0 <= i < g.len() implies #[trigger] g[i] <= '\x7f' by {
        assert(is_code_symbol(g[i]));
    }
}

/// Looking a room up by an ASCII code ignores the case of its letters: the code and the code
/// written in lower case find the same room (see `Matchmaker::find_room_by_code`).
pub proof fn law_room_lookup_ignores_case(rooms: Seq<Room>, code: Seq<char>)
    requires
        ascii_text(code),
    ensures
        ascii_text(ascii_lower(code)),
        index_joinable(rooms, ascii_upper(trimmed(ascii_lower(code))), 0) == index_joinable(
            rooms,
            ascii_upper(trimmed(code)),
            0,
        ),
{
    law_case_is_ignored(code);
}

/// Among the headquarters `hqs` (side and room of each), one stands in room `room_id` and
/// belongs to Player 1 (when `of_p1`) or to another side (otherwise).
pub open spec fn has_hq(hqs: Seq<(Faction, u32)>, room_id: u32, of_p1: bool) -> bool {
    exists|j: int|
        0 <= j < hqs.len() && (#[trigger] hqs[j]).1 == room_id && (hqs[j].0 == Faction::Player1)
            == of_p1
}

/// The winner of room `r` now, if its match is running and has just been decided.
pub open spec fn room_result(r: Room, hqs: Seq<(Faction, u32)>) -> Option<Faction> {
    if r.is_active {
        winner_spec(r.mode, has_hq(hqs, r.room_id, true), has_hq(hqs, r.room_id, false))
    } else {
        None
    }
}

/// Room `r` after the outcome check: it stops running when its match has just been decided.
pub open spec fn settled(r: Room, hqs: Seq<(Faction, u32)>) -> Room {
    Room { is_active: r.is_active && room_result(r, hqs) is None, ..r }
}

/// The rooms among the first `n` whose match ends now, with their winners, in order.
pub open spec fn ended_rooms(rooms: Seq<Room>, hqs: Seq<(Faction, u32)>, n: int) -> Seq<(u32, Faction)>
    decreases n,
{
    if n <= 0 {
        Seq::empty()
    } else {
        let before = ended_rooms(rooms, hqs, n - 1);
        match room_result(rooms[n - 1], hqs) {
            Some(w) => before.push((rooms[n - 1].room_id, w)),
            None => before,
        }
    }
}

/// A running match ends exactly when one side's headquarters all fell and the other's did not:
/// Player 1 wins when only its headquarters stands, the AI (in solo) or Player 2 when only
/// theirs does. A match that does not run never ends again.
pub proof fn law_match_outcome(r: Room, hqs: Seq<(Faction, u32)>)
    ensures
        ({
            let p1 = has_hq(hqs, r.room_id, true);
            let enemy = has_hq(hqs, r.room_id, false);
            &&& (room_result(r, hqs) is Some) == (r.is_active && p1 != enemy)
            &&& room_result(r, hqs) matches Some(w) ==> w == (if p1 {
                Faction::Player1
            } else if r.mode == GameMode::SoloVsAi {
                Faction::HostileAi
            } else {
                Faction::Player2
            })
        }),
{
}

/// A code lookup only finds a private room that waits for its second player and carries that
/// code, and it finds one whenever such a room exists: a room with both seats taken, a room of
/// another mode, or one with another code is never found.
pub proof fn law_lookup_finds_only_open_rooms(rooms: Seq<Room>, code: Seq<char>, k: int)
    ensures
        index_joinable(rooms, code, 0) matches Some(i) ==> (0 <= i < rooms.len() && rooms[i].p2_peer
            is None && rooms[i].mode == GameMode::CustomPrivate && has_code(rooms[i], code)),
        0 <= k < rooms.len() && rooms[k].p2_peer is None && rooms[k].mode == GameMode::CustomPrivate
            && has_code(rooms[k], code) ==> (index_joinable(rooms, code, 0) is Some),
{
    lemma_joinable_found(rooms, code, 0);
    if 0 <= k < rooms.len() && rooms[k].p2_peer is None && rooms[k].mode == GameMode::CustomPrivate
        && has_code(rooms[k], code) {
        lemma_joinable_exists(rooms, code, 0, k);
    }
}

proof fn lemma_joinable_found(rooms: Seq<Room>, code: Seq<char>, from: int)
    ensures
        index_joinable(rooms, code, from) matches Some(i) ==> from <= i < rooms.len()
            && joinable_with(rooms[i], code),
    decreases rooms.len() - from,
{
    if 0 <= from < rooms.len() && !joinable_with(rooms[from], code) {
        lemma_joinable_found(rooms, code, from + 1);
    }
}

proof fn lemma_joinable_exists(rooms: Seq<Room>, code: Seq<char>, from: int, k: int)
    requires
        0 <= from <= k < rooms.len(),
        rooms[k].p2_peer is None,
        rooms[k].mode == GameMode::CustomPrivate,
        has_code(rooms[k], code),
    ensures
        index_joinable(rooms, code, from) is Some,
    decreases k - from,
{
    if from < k && !joinable_with(rooms[from], code) {
        lemma_joinable_exists(rooms, code, from + 1, k);
    }
}

/// Rooms, players and the 1v1 queue of the server.
pub struct Matchmaker {
    pub connected_peers: HashSet<u64>,
    pub players: HashMap<u64, PlayerSession>,
    pub rooms: Vec<Room>,
    pub waiting_1v1_peer: Option<u64>,
    pub next_room_id: u32,
    pub next_net_id: u32,
}

impl Matchmaker {
    /// An empty matchmaker: room ids start at 1, network ids at 1000.
    pub fn new() -> (res: Self)
        ensures
            res.connected_peers@ == Set::<u64>::empty(),
            res.players@ == Map::<u64, PlayerSession>::empty(),
            res.rooms@ == Seq::<Room>::empty(),
            res.waiting_1v1_peer is None,
            res.next_room_id == 1,
            res.next_net_id == 1000,
    {
        Matchmaker {
            connected_peers: HashSet::new(),
            players: HashMap::new(),
            rooms: Vec::new(),
            waiting_1v1_peer: None,
            next_room_id: 1,
            next_net_id: 1000,
        }
    }

    /// Takes `peer_id` out of the 1v1 queue; returns whether it was the one waiting.
    pub fn cancel_queue(&mut self, peer_id: u64) -> (res: bool)
        ensures
            res == (old(self).waiting_1v1_peer == Some(peer_id)),
            res ==> final(self).waiting_1v1_peer is None && final(self).players@ == old(
                self,
            ).players@.remove(peer_id),
            !res ==> final(self).waiting_1v1_peer == old(self).waiting_1v1_peer
                && final(self).players@ == old(self).players@,
            final(self).rooms@ == old(self).rooms@,
            final(self).connected_peers@ == old(self).connected_peers@,
            final(self).next_room_id == old(self).next_room_id,
            final(self).next_net_id == old(self).next_net_id,
    {
        let waiting = match self.waiting_1v1_peer {
            Some(p) => p == peer_id,
            None => false,
        };
        if waiting {
            self.waiting_1v1_peer = None;
            self.players.remove(&peer_id);
            true
        } else {
            false
        }
    }

    /// Hands out the next network id.
    pub fn alloc_net_id(&mut self) -> (id: u32)
        requires
            old(self).next_net_id < u32::MAX,
        ensures
            id == old(self).next_net_id,
            final(self).next_net_id == old(self).next_net_id + 1,
            final(self).rooms@ == old(self).rooms@,
            final(self).players@ == old(self).players@,
            final(self).connected_peers@ == old(self).connected_peers@,
            final(self).waiting_1v1_peer == old(self).waiting_1v1_peer,
            final(self).next_room_id == old(self).next_room_id,
    {
        let id = self.next_net_id;
        self.next_net_id = self.next_net_id + 1;
        id
    }

    /// A four-character code for a new private room.
    pub fn generate_room_code(&self) -> (code: String)
        ensures
            code@ == generated_code(self.rooms@, self.next_room_id),
    {
        let seed: u32 = self.next_room_id.wrapping_mul(1103515245).wrapping_add(12345);
        let mut code = String::new();
        let mut i: u32 = 0;
        while i < 4
            invariant
                i <= 4,
                seed == code_seed(self.next_room_id),
                code@ == code_candidate(self.next_room_id).take(i as int),
            decreases 4 - i,
        {
            let idx = (seed >> (i * 4)) % 32;
            let c = room_code_char(idx);
            push_char(&mut code, c);
            proof {
                assert(code_candidate(self.next_room_id).take(i + 1) =~= code_candidate(
                    self.next_room_id,
                ).take(i as int).push(c));
            }
            i = i + 1;
        }
        proof {
            assert(code_candidate(self.next_room_id).take(4) =~= code_candidate(self.next_room_id));
        }
        let mut j: usize = 0;
        while j < self.rooms.len()
            invariant
                j <= self.rooms@.len(),
                code@ == code_candidate(self.next_room_id),
                forall|k: int| 0 <= k < j ==> !has_code(#[trigger] self.rooms@[k], code@),
            decreases self.rooms@.len() - j,
        {
            let clash = match &self.rooms[j].room_code {
                Some(c) => c.eq(&code),
                None => false,
            };
            if clash {
                let v: u32 = self.next_room_id.wrapping_mul(7919) % 65535;
                return hex_four(v);
            }
            j = j + 1;
        }
        code
    }

    /// Position of the first room that a player with `code` may join.
    pub(crate) fn joinable_index(&self, code: &String) -> (res: Option<usize>)
        ensures
            res matches Some(i) ==> index_joinable(self.rooms@, code@, 0) == Some(i as int) && i
                < self.rooms@.len() && joinable_with(self.rooms@[i as int], code@),
            res is None ==> index_joinable(self.rooms@, code@, 0) is None,
    {
        let mut i: usize = 0;
        while i < self.rooms.len()
            invariant
                i <= self.rooms@.len(),
                index_joinable(self.rooms@, code@, 0) == index_joinable(self.rooms@, code@, i as int),
            decreases self.rooms@.len() - i,
        {
            let r = &self.rooms[i];
            let code_matches = match &r.room_code {
                Some(c) => c.eq(code),
                None => false,
            };
            let waiting = match r.p2_peer {
                Some(_) => false,
                None => true,
            };
            if code_matches && waiting && r.mode == GameMode::CustomPrivate {
                return Some(i);
            }
            i = i + 1;
        }
        None
    }

    /// The private room that `code` (trimmed, in upper case) opens for a second player.
    pub fn find_room_by_code(&self, code: &str) -> (res: Option<u32>)
        ensures
            res == (match index_joinable(self.rooms@, uppercased(trimmed(code@)), 0) {
                Some(i) => Some(self.rooms@[i].room_id),
                None => None,
            }),
            ascii_text(code@) ==> res == (match index_joinable(
                self.rooms@,
                ascii_upper(trimmed(code@)),
                0,
            ) {
                Some(i) => Some(self.rooms@[i].room_id),
                None => None,
            }),
    {
        let trimmed_code = trim_str(code);
        proof {
            if ascii_text(code@) {
                lemma_trimmed_stays_ascii(code@);
            }
        }
        let upper = to_upper(trimmed_code);
        match self.joinable_index(&upper) {
            Some(i) => Some(self.rooms[i].room_id),
            None => None,
        }
    }

    /// Number of running 1v1 rooms.
    pub fn active_1v1_count(&self) -> (res: usize)
        ensures
            res == count_pvp(self.rooms@),
    {
        let mut n: usize = 0;
        let mut i: usize = 0;
        while i < self.rooms.len()
            invariant
                i <= self.rooms@.len(),
                n == count_pvp(self.rooms@.take(i as int)),
                n <= i,
            decreases self.rooms@.len() - i,
        {
            proof {
                assert(self.rooms@.take(i + 1).drop_last() =~= self.rooms@.take(i as int));
            }
            let r = &self.rooms[i];
            if (r.mode == GameMode::Multiplayer1v1 || r.mode == GameMode::CustomPrivate) && r.is_active {
                n = n + 1;
            }
            i = i + 1;
        }
        proof {
            assert(self.rooms@.take(i as int) =~= self.rooms@);
        }
        n
    }

    /// Number of running solo rooms.
    pub fn active_solo_count(&self) -> (res: usize)
        ensures
            res == count_solo(self.rooms@),
    {
        let mut n: usize = 0;
        let mut i: usize = 0;
        while i < self.rooms.len()
            invariant
                i <= self.rooms@.len(),
                n == count_solo(self.rooms@.take(i as int)),
                n <= i,
            decreases self.rooms@.len() - i,
        {
            proof {
                assert(self.rooms@.take(i + 1).drop_last() =~= self.rooms@.take(i as int));
            }
            let r = &self.rooms[i];
            if r.mode == GameMode::SoloVsAi && r.is_active {
                n = n + 1;
            }
            i = i + 1;
        }
        proof {
            assert(self.rooms@.take(i as int) =~= self.rooms@);
        }
        n
    }

    /// Whether another 1v1 match may start.
    pub fn can_start_pvp(&self) -> (res: bool)
        ensures
            res == (count_pvp(self.rooms@) < MAX_ACTIVE_PVP_MATCHES),
    {
        self.active_1v1_count() < MAX_ACTIVE_PVP_MATCHES
    }

    /// Whether another solo match may start.
    pub fn can_start_solo(&self) -> (res: bool)
        ensures
            res == (count_solo(self.rooms@) < MAX_ACTIVE_SOLO_MATCHES),
    {
        self.active_solo_count() < MAX_ACTIVE_SOLO_MATCHES
    }

    /// Whether the simulation runs for entities of room `room_id`: the room is active and its
    /// start countdown is over (`countdown_over`, measured by the caller). Entities of a room
    /// that is gone keep running.
    pub fn room_is_running(&self, room_id: u32, countdown_over: bool) -> (res: bool)
        ensures
            res == (match room_by_id(self.rooms@, room_id) {
                Some(r) => r.is_active && countdown_over,
                None => true,
            }),
    {
        match self.room_index(room_id) {
            Some(i) => self.rooms[i].is_active && countdown_over,
            None => true,
        }
    }

    /// Position in `rooms` of the room with id `room_id`.
    pub(crate) fn room_index(&self, room_id: u32) -> (res: Option<usize>)
        ensures
            res matches Some(i) ==> index_of_room(self.rooms@, room_id, 0) == Some(i as int) && i
                < self.rooms@.len() && self.rooms@[i as int].room_id == room_id,
            res is None ==> index_of_room(self.rooms@, room_id, 0) is None,
    {
        let mut i: usize = 0;
        while i < self.rooms.len()
            invariant
                i <= self.rooms@.len(),
                index_of_room(self.rooms@, room_id, 0) == index_of_room(self.rooms@, room_id, i as int),
            decreases self.rooms@.len() - i,
        {
            if self.rooms[i].room_id == room_id {
                return Some(i);
            }
            i = i + 1;
        }
        None
    }

    /// Peers seated in the room, Player 1 first; empty for an unknown room.
    pub fn get_room_peers(&self, room_id: u32) -> (res: Vec<u64>)
        ensures
            res@ == (match room_by_id(self.rooms@, room_id) {
                Some(r) => seated(r),
                None => Seq::empty(),
            }),
    {
        let mut peers: Vec<u64> = Vec::new();
        match self.room_index(room_id) {
            Some(i) => {
                let room = &self.rooms[i];
                if let Some(p1) = room.p1_peer {
                    peers.push(p1);
                }
                if let Some(p2) = room.p2_peer {
                    peers.push(p2);
                }
                proof {
                    assert(peers@ =~= seated(self.rooms@[i as int]));
                }
            },
            None => {},
        }
        peers
    }

    /// The room that a peer sits in.
    pub fn get_peer_room(&self, peer_id: u64) -> (res: Option<u32>)
        ensures
            res == (if self.players@.contains_key(peer_id) {
                Some(self.players@[peer_id].room_id)
            } else {
                None
            }),
    {
        match self.players.get(&peer_id) {
            Some(p) => Some(p.room_id),
            None => None,
        }
    }

    /// The faction that a peer plays.
    pub fn get_peer_faction(&self, peer_id: u64) -> (res: Option<Faction>)
        ensures
            res == (if self.players@.contains_key(peer_id) {
                Some(self.players@[peer_id].faction)
            } else {
                None
            }),
    {
        match self.players.get(&peer_id) {
            Some(p) => Some(p.faction),
            None => None,
        }
    }

    /// Ends every running match that has been decided: given the headquarters that stand (side
    /// and room of each), each such room stops running; returns the rooms that ended now with
    /// their winners, in room order. Nothing else changes.
    pub fn settle_outcomes(&mut self, hqs: &Vec<(Faction, u32)>) -> (ended: Vec<(u32, Faction)>)
        ensures
            final(self).rooms@.len() == old(self).rooms@.len(),
            forall|i: int|
                0 <= i < old(self).rooms@.len() ==> #[trigger] final(self).rooms@[i] == settled(
                    old(self).rooms@[i],
                    hqs@,
                ),
            ended@ == ended_rooms(old(self).rooms@, hqs@, old(self).rooms@.len() as int),
            final(self).players@ == old(self).players@,
            final(self).connected_peers@ == old(self).connected_peers@,
            final(self).waiting_1v1_peer == old(self).waiting_1v1_peer,
            final(self).next_room_id == old(self).next_room_id,
            final(self).next_net_id == old(self).next_net_id,
    {
        let mut ended: Vec<(u32, Faction)> = Vec::new();
        let mut i: usize = 0;
        while i < self.rooms.len()
            invariant
                i <= self.rooms@.len(),
                self.rooms@.len() == old(self).rooms@.len(),
                forall|j: int|
                    0 <= j < i ==> #[trigger] self.rooms@[j] == settled(old(self).rooms@[j], hqs@),
                forall|j: int| i <= j < self.rooms@.len() ==> #[trigger] self.rooms@[j] == old(self).rooms@[j],
                ended@ == ended_rooms(old(self).rooms@, hqs@, i as int),
                self.players@ == old(self).players@,
                self.connected_peers@ == old(self).connected_peers@,
                self.waiting_1v1_peer == old(self).waiting_1v1_peer,
                self.next_room_id == old(self).next_room_id,
                self.next_net_id == old(self).next_net_id,
            decreases self.rooms@.len() - i,
        {
            let active = self.rooms[i].is_active;
            let room_id = self.rooms[i].room_id;
            let mode = self.rooms[i].mode;
            let (p1, enemy) = hq_presence(hqs, room_id);
            let winner = if active {
                match_winner(mode, p1, enemy)
            } else {
                None
            };
            match winner {
                Some(w) => {
                    let ghost before = self.rooms@;
                    let mut room = self.rooms.remove(i);
                    room.is_active = false;
                    self.rooms.insert(i, room);
                    proof {
                        assert(self.rooms@ =~= before.update(
                            i as int,
                            Room { is_active: false, ..before[i as int] },
                        ));
                    }
                    ended.push((room_id, w));
                },
                None => {},
            }
            i = i + 1;
        }
        ended
    }

    /// Marks a room as no longer running; other rooms are untouched.
    pub fn deactivate_room(&mut self, room_id: u32)
        ensures
            final(self).rooms@ == (match index_of_room(old(self).rooms@, room_id, 0) {
                Some(i) => old(self).rooms@.update(i, Room { is_active: false, ..old(self).rooms@[i] }),
                None => old(self).rooms@,
            }),
            final(self).players@ == old(self).players@,
            final(self).connected_peers@ == old(self).connected_peers@,
            final(self).waiting_1v1_peer == old(self).waiting_1v1_peer,
            final(self).next_room_id == old(self).next_room_id,
            final(self).next_net_id == old(self).next_net_id,
    {
        match self.room_index(room_id) {
            Some(i) => {
                let mut room = self.rooms.remove(i);
                room.is_active = false;
                self.rooms.insert(i, room);
                proof {
                    assert(self.rooms@ =~= old(self).rooms@.update(
                        i as int,
                        Room { is_active: false, ..old(self).rooms@[i as int] },
                    ));
                }
            },
            None => {},
        }
    }

    /// Takes a room out and returns it.
    pub fn remove_room(&mut self, room_id: u32) -> (res: Option<Room>)
        ensures
            res == room_by_id(old(self).rooms@, room_id),
            final(self).rooms@ == (match index_of_room(old(self).rooms@, room_id, 0) {
                Some(i) => old(self).rooms@.remove(i),
                None => old(self).rooms@,
            }),
            final(self).players@ == old(self).players@,
            final(self).connected_peers@ == old(self).connected_peers@,
            final(self).waiting_1v1_peer == old(self).waiting_1v1_peer,
            final(self).next_room_id == old(self).next_room_id,
            final(self).next_net_id == old(self).next_net_id,
    {
        match self.room_index(room_id) {
            Some(i) => Some(self.rooms.remove(i)),
            None => None,
        }
    }

    /// Puts a room in; a room with the same id is replaced and returned.
    pub fn insert_room(&mut self, room: Room) -> (res: Option<Room>)
        ensures
            res == room_by_id(old(self).rooms@, room.room_id),
            final(self).rooms@ == (match index_of_room(old(self).rooms@, room.room_id, 0) {
                Some(i) => old(self).rooms@.update(i, room),
                None => old(self).rooms@.push(room),
            }),
            final(self).players@ == old(self).players@,
            final(self).connected_peers@ == old(self).connected_peers@,
            final(self).waiting_1v1_peer == old(self).waiting_1v1_peer,
            final(self).next_room_id == old(self).next_room_id,
            final(self).next_net_id == old(self).next_net_id,
    {
        match self.room_index(room.room_id) {
            Some(i) => {
                let old_room = self.rooms.remove(i);
                self.rooms.insert(i, room);
                proof {
                    assert(self.rooms@ =~= old(self).rooms@.update(i as int, room));
                }
                Some(old_room)
            },
            None => {
                self.rooms.push(room);
                None
            },
        }
    }

    /// Lobby statistics: (1v1 queue length, running 1v1 matches, 1v1 limit, running solo
    /// matches, solo limit, players online).
    pub fn get_telemetry(&self) -> (res: (u32, u32, u32, u32, u32, u32))
        ensures
            res.0 == (if self.waiting_1v1_peer is Some {
                1u32
            } else {
                0u32
            }),
            res.1 == count_pvp(self.rooms@) as u32,
            res.2 == MAX_ACTIVE_PVP_MATCHES as u32,
            res.3 == count_solo(self.rooms@) as u32,
            res.4 == MAX_ACTIVE_SOLO_MATCHES as u32,
            res.5 == (if self.connected_peers@.len() >= self.players@.len() {
                self.connected_peers@.len()
            } else {
                self.players@.len()
            }) as u32,
    {
        let queue_1v1: u32 = if self.waiting_1v1_peer.is_some() {
            1
        } else {
            0
        };
        let active_1v1 = self.active_1v1_count() as u32;
        let max_1v1 = MAX_ACTIVE_PVP_MATCHES as u32;
        let active_solo = self.active_solo_count() as u32;
        let max_solo = MAX_ACTIVE_SOLO_MATCHES as u32;
        let online = self.connected_peers.len();
        let players = self.players.len();
        let total_online = if online >= players {
            online
        } else {
            players
        } as u32;
        (queue_1v1, active_1v1, max_1v1, active_solo, max_solo, total_online)
    }
}

impl Default for Matchmaker {
    fn default() -> (res: Self)
        ensures
            res.connected_peers@ == Set::<u64>::empty(),
            res.players@ == Map::<u64, PlayerSession>::empty(),
            res.rooms@ == Seq::<Room>::empty(),
            res.waiting_1v1_peer is None,
            res.next_room_id == 0,
            res.next_net_id == 0,
    {
        Matchmaker {
            connected_peers: HashSet::new(),
            players: HashMap::new(),
            rooms: Vec::new(),
            waiting_1v1_peer: None,
            next_room_id: 0,
            next_net_id: 0,
        }
    }
}

/// `v` (below 65536) as four upper-case hexadecimal digits.
fn hex_four(v: u32) -> (res: String)
    ensures
        res@ == hex4(v),
{
    let mut s = String::new();
    push_char(&mut s, hex_digit_char((v >> 12) % 16));
    push_char(&mut s, hex_digit_char((v >> 8) % 16));
    push_char(&mut s, hex_digit_char((v >> 4) % 16));
    push_char(&mut s, hex_digit_char(v % 16));
    proof {
        assert(s@ =~= hex4(v));
    }
    s
}

/// Which sides hold a headquarters in room `room_id`: Player 1, and any other side.
fn hq_presence(hqs: &Vec<(Faction, u32)>, room_id: u32) -> (res: (bool, bool))
    ensures
        res.0 == has_hq(hqs@, room_id, true),
        res.1 == has_hq(hqs@, room_id, false),
{
    let mut p1 = false;
    let mut enemy = false;
    let mut j: usize = 0;
    while j < hqs.len()
        invariant
            j <= hqs@.len(),
            p1 == (exists|k: int|
                0 <= k < j && (#[trigger] hqs@[k]).1 == room_id && (hqs@[k].0 == Faction::Player1)),
            enemy == (exists|k: int|
                0 <= k < j && (#[trigger] hqs@[k]).1 == room_id && !(hqs@[k].0 == Faction::Player1)),
        decreases hqs@.len() - j,
    {
        let (f, r) = hqs[j];
        if r == room_id {
            if f == Faction::Player1 {
                p1 = true;
            } else {
                enemy = true;
            }
        }
        j = j + 1;
    }
    (p1, enemy)
}

} // verus!
