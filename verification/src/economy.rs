use vstd::prelude::*;
use crate::faction::Faction;

verus! {

/// Minerals and supply of one faction.
#[derive(Debug, Clone, Copy, PartialEq, Eq, Structural)]
pub struct FactionEconomy {
    pub minerals: u32,
    pub current_supply: u32,
    pub max_supply: u32,
}

/// The economy a faction starts with: 200 minerals, 0 of 10 supply used.
pub open spec fn starting_economy() -> FactionEconomy {
    FactionEconomy { minerals: 200, current_supply: 0, max_supply: 10 }
}

impl Default for FactionEconomy {
    fn default() -> (res: Self)
        ensures
            res == starting_economy(),
    {
        FactionEconomy { minerals: 200, current_supply: 0, max_supply: 10 }
    }
}

/// `a + b`, capped at `u32::MAX`.
pub open spec fn sat_add(a: u32, b: u32) -> u32 {
    if a + b > u32::MAX {
        u32::MAX
    } else {
        (a + b) as u32
    }
}

/// `a - b`, floored at 0.
pub open spec fn sat_sub(a: u32, b: u32) -> u32 {
    if a < b {
        0
    } else {
        (a - b) as u32
    }
}

/// The entry of a faction, or the starting economy when it has none yet.
pub open spec fn entry_or_start(m: Map<Faction, FactionEconomy>, f: Faction) -> FactionEconomy {
    if m.contains_key(f) {
        m[f]
    } else {
        starting_economy()
    }
}

/// Minerals that a faction is known to hold (0 without an entry).
pub open spec fn minerals_of(m: Map<Faction, FactionEconomy>, f: Faction) -> u32 {
    if m.contains_key(f) {
        m[f].minerals
    } else {
        0
    }
}

/// Supply used and supply cap of a faction (0 of 10 without an entry).
pub open spec fn supply_of(m: Map<Faction, FactionEconomy>, f: Faction) -> (u32, u32) {
    if m.contains_key(f) {
        (m[f].current_supply, m[f].max_supply)
    } else {
        (0, 10)
    }
}

/// The map after adding `amount` minerals to `f` (capped).
pub open spec fn after_add_minerals(m: Map<Faction, FactionEconomy>, f: Faction, amount: u32) -> Map<
    Faction,
    FactionEconomy,
> {
    let e = entry_or_start(m, f);
    m.insert(f, FactionEconomy { minerals: sat_add(e.minerals, amount), ..e })
}

/// Whether spending `amount` of `f`'s minerals succeeds.
pub open spec fn can_spend(m: Map<Faction, FactionEconomy>, f: Faction, amount: u32) -> bool {
    entry_or_start(m, f).minerals >= amount
}

/// The map after an attempt to spend `amount` of `f`'s minerals: the entry is created when
/// missing, and the minerals drop only when the attempt succeeds.
pub open spec fn after_spend_minerals(m: Map<Faction, FactionEconomy>, f: Faction, amount: u32) -> Map<
    Faction,
    FactionEconomy,
> {
    let e = entry_or_start(m, f);
    if e.minerals >= amount {
        m.insert(f, FactionEconomy { minerals: (e.minerals - amount) as u32, ..e })
    } else {
        m.insert(f, e)
    }
}

/// The map after `f` uses `cost` more supply (capped).
pub open spec fn after_register_supply(m: Map<Faction, FactionEconomy>, f: Faction, cost: u32) -> Map<
    Faction,
    FactionEconomy,
> {
    let e = entry_or_start(m, f);
    m.insert(f, FactionEconomy { current_supply: sat_add(e.current_supply, cost), ..e })
}

/// The map after `f` frees `cost` supply (floored at 0).
pub open spec fn after_unregister_supply(m: Map<Faction, FactionEconomy>, f: Faction, cost: u32) -> Map<
    Faction,
    FactionEconomy,
> {
    let e = entry_or_start(m, f);
    m.insert(f, FactionEconomy { current_supply: sat_sub(e.current_supply, cost), ..e })
}

/// The map after `f`'s supply cap grows by `amount` (capped).
pub open spec fn after_add_max_supply(m: Map<Faction, FactionEconomy>, f: Faction, amount: u32) -> Map<
    Faction,
    FactionEconomy,
> {
    let e = entry_or_start(m, f);
    m.insert(f, FactionEconomy { max_supply: sat_add(e.max_supply, amount), ..e })
}

/// Per-faction minerals and supply limits of one match.
#[derive(Debug, Clone)]
pub struct PlayerEconomy {
    player1: Option<FactionEconomy>,
    player2: Option<FactionEconomy>,
    hostile_ai: Option<FactionEconomy>,
    neutral: Option<FactionEconomy>,
}

impl PlayerEconomy {
    /// The entry of one faction.
    pub closed spec fn slot(&self, f: Faction) -> Option<FactionEconomy> {
        match f {
            Faction::Player1 => self.player1,
            Faction::Player2 => self.player2,
            Faction::HostileAi => self.hostile_ai,
            Faction::Neutral => self.neutral,
        }
    }

    /// The economies, by faction.
    pub closed spec fn view(&self) -> Map<Faction, FactionEconomy> {
        Map::new(|f: Faction| self.slot(f) is Some, |f: Faction| self.slot(f)->Some_0)
    }

    fn get_slot(&self, faction: Faction) -> (res: Option<FactionEconomy>)
        ensures
            res == self.slot(faction),
    {
        match faction {
            Faction::Player1 => self.player1,
            Faction::Player2 => self.player2,
            Faction::HostileAi => self.hostile_ai,
            Faction::Neutral => self.neutral,
        }
    }

    fn put_slot(&mut self, faction: Faction, e: FactionEconomy)
        ensures
            final(self).view() == old(self).view().insert(faction, e),
    {
        match faction {
            Faction::Player1 => self.player1 = Some(e),
            Faction::Player2 => self.player2 = Some(e),
            Faction::HostileAi => self.hostile_ai = Some(e),
            Faction::Neutral => self.neutral = Some(e),
        }
        assert(self.view() =~= old(self).view().insert(faction, e));
    }

    fn entry_or_default(&self, faction: Faction) -> (res: FactionEconomy)
        ensures
            res == entry_or_start(self.view(), faction),
    {
        match self.get_slot(faction) {
            Some(e) => e,
            None => FactionEconomy::default(),
        }
    }

    /// An economy with no faction entered.
    fn empty() -> (res: Self)
        ensures
            res.view() == Map::<Faction, FactionEconomy>::empty(),
    {
        let res = PlayerEconomy { player1: None, player2: None, hostile_ai: None, neutral: None };
        assert(res.view() =~= Map::<Faction, FactionEconomy>::empty());
        res
    }

    /// Player 1, Player 2 and the hostile AI each start with 200 minerals and 0 of 10 supply.
    pub fn new() -> (res: Self)
        ensures
            res.view() == map![
                Faction::Player1 => starting_economy(),
                Faction::Player2 => starting_economy(),
                Faction::HostileAi => starting_economy(),
            ],
    {
        let res = PlayerEconomy {
            player1: Some(FactionEconomy { minerals: 200, current_supply: 0, max_supply: 10 }),
            player2: Some(FactionEconomy { minerals: 200, current_supply: 0, max_supply: 10 }),
            hostile_ai: Some(FactionEconomy { minerals: 200, current_supply: 0, max_supply: 10 }),
            neutral: None,
        };
        assert(res.view() =~= map![
            Faction::Player1 => starting_economy(),
            Faction::Player2 => starting_economy(),
            Faction::HostileAi => starting_economy(),
        ]);
        res
    }

    /// The faction's economy, or the starting economy when it has none.
    pub fn get(&self, faction: Faction) -> (res: FactionEconomy)
        ensures
            res == entry_or_start(self.view(), faction),
    {
        self.entry_or_default(faction)
    }

    /// Minerals of a faction; 0 when it has no entry.
    pub fn get_minerals(&self, faction: Faction) -> (res: u32)
        ensures
            res == minerals_of(self.view(), faction),
    {
        match self.get_slot(faction) {
            Some(e) => e.minerals,
            None => 0,
        }
    }

    /// Adds minerals to a faction, capped at `u32::MAX`.
    pub fn add_minerals(&mut self, faction: Faction, amount: u32)
        ensures
            final(self).view() == after_add_minerals(old(self).view(), faction, amount),
    {
        let e = self.entry_or_default(faction);
        let updated = FactionEconomy { minerals: e.minerals.saturating_add(amount), ..e };
        self.put_slot(faction, updated);
    }

    /// Whether the faction holds at least `amount` minerals.
    pub fn has_minerals(&self, faction: Faction, amount: u32) -> (res: bool)
        ensures
            res == (minerals_of(self.view(), faction) >= amount),
    {
        self.get_minerals(faction) >= amount
    }

    /// Spends minerals when the faction has enough; returns whether it did.
    pub fn spend_minerals(&mut self, faction: Faction, amount: u32) -> (res: bool)
        ensures
            res == can_spend(old(self).view(), faction, amount),
            final(self).view() == after_spend_minerals(old(self).view(), faction, amount),
    {
        let e = self.entry_or_default(faction);
        if e.minerals >= amount {
            let updated = FactionEconomy { minerals: e.minerals - amount, ..e };
            self.put_slot(faction, updated);
            true
        } else {
            self.put_slot(faction, e);
            false
        }
    }

    /// Supply used and supply cap of a faction; 0 of 10 when it has no entry.
    pub fn get_supply(&self, faction: Faction) -> (res: (u32, u32))
        ensures
            res == supply_of(self.view(), faction),
    {
        match self.get_slot(faction) {
            Some(e) => (e.current_supply, e.max_supply),
            None => (0, 10),
        }
    }

    /// Whether `cost` more supply fits under the faction's cap.
    pub fn has_supply(&self, faction: Faction, cost: u32) -> (res: bool)
        requires
            supply_of(self.view(), faction).0 + cost <= u32::MAX,
        ensures
            res == (supply_of(self.view(), faction).0 + cost <= supply_of(self.view(), faction).1),
    {
        let (current, max) = self.get_supply(faction);
        current + cost <= max
    }

    /// Uses `cost` more supply, capped at `u32::MAX`.
    pub fn register_supply(&mut self, faction: Faction, cost: u32)
        ensures
            final(self).view() == after_register_supply(old(self).view(), faction, cost),
    {
        let e = self.entry_or_default(faction);
        let updated = FactionEconomy { current_supply: e.current_supply.saturating_add(cost), ..e };
        self.put_slot(faction, updated);
    }

    /// Frees `cost` supply, floored at 0.
    pub fn unregister_supply(&mut self, faction: Faction, cost: u32)
        ensures
            final(self).view() == after_unregister_supply(old(self).view(), faction, cost),
    {
        let e = self.entry_or_default(faction);
        let updated = FactionEconomy { current_supply: e.current_supply.saturating_sub(cost), ..e };
        self.put_slot(faction, updated);
    }

    /// Raises the faction's supply cap, capped at `u32::MAX`.
    pub fn add_max_supply(&mut self, faction: Faction, amount: u32)
        ensures
            final(self).view() == after_add_max_supply(old(self).view(), faction, amount),
    {
        let e = self.entry_or_default(faction);
        let updated = FactionEconomy { max_supply: e.max_supply.saturating_add(amount), ..e };
        self.put_slot(faction, updated);
    }
}

/// Spending the minerals that were just added gives the economy back (with the faction's entry
/// created), as long as adding did not hit the cap.
pub proof fn law_spend_undoes_add(m: Map<Faction, FactionEconomy>, f: Faction, amount: u32)
    requires
        entry_or_start(m, f).minerals + amount <= u32::MAX,
    ensures
        can_spend(after_add_minerals(m, f, amount), f, amount),
        after_spend_minerals(after_add_minerals(m, f, amount), f, amount) =~= m.insert(
            f,
            entry_or_start(m, f),
        ),
{
}

/// Freeing the supply that was just taken gives the economy back (with the faction's entry
/// created), as long as taking it did not hit the cap.
pub proof fn law_unregister_undoes_register(m: Map<Faction, FactionEconomy>, f: Faction, cost: u32)
    requires
        entry_or_start(m, f).current_supply + cost <= u32::MAX,
    ensures
        after_unregister_supply(after_register_supply(m, f, cost), f, cost) =~= m.insert(
            f,
            entry_or_start(m, f),
        ),
{
}

/// A faction that has an entry and holds `amount` minerals can spend them, and then holds exactly
/// that much less.
pub proof fn law_spend_when_held(m: Map<Faction, FactionEconomy>, f: Faction, amount: u32)
    requires
        m.contains_key(f),
        minerals_of(m, f) >= amount,
    ensures
        can_spend(m, f, amount),
        minerals_of(after_spend_minerals(m, f, amount), f) == minerals_of(m, f) - amount,
{
}

/// A failed spend takes nothing.
pub proof fn law_failed_spend_keeps_minerals(m: Map<Faction, FactionEconomy>, f: Faction, amount: u32)
    requires
        !can_spend(m, f, amount),
    ensures
        entry_or_start(after_spend_minerals(m, f, amount), f) == entry_or_start(m, f),
{
}

/// Every economy operation on one faction leaves the entries of the other factions as they were.
pub proof fn law_factions_isolated(
    m: Map<Faction, FactionEconomy>,
    f: Faction,
    g: Faction,
    amount: u32,
)
    requires
        f != g,
    ensures
        after_add_minerals(m, f, amount).contains_key(g) == m.contains_key(g),
        after_add_minerals(m, f, amount)[g] == m[g],
        after_spend_minerals(m, f, amount).contains_key(g) == m.contains_key(g),
        after_spend_minerals(m, f, amount)[g] == m[g],
        after_register_supply(m, f, amount).contains_key(g) == m.contains_key(g),
        after_register_supply(m, f, amount)[g] == m[g],
        after_unregister_supply(m, f, amount).contains_key(g) == m.contains_key(g),
        after_unregister_supply(m, f, amount)[g] == m[g],
        after_add_max_supply(m, f, amount).contains_key(g) == m.contains_key(g),
        after_add_max_supply(m, f, amount)[g] == m[g],
{
}

impl Default for PlayerEconomy {
    fn default() -> (res: Self)
        ensures
            res.view() == Map::<Faction, FactionEconomy>::empty(),
    {
        PlayerEconomy::empty()
    }
}

} // verus!
