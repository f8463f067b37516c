use vstd::prelude::*;

verus! {

/// The sides that take part in a match.
#[derive(Debug, Clone, Copy, PartialEq, Eq, Hash, Structural)]
pub enum Faction {
    Player1,
    Player2,
    HostileAi,
    Neutral,
}

/// Two factions are hostile when both take part in the fighting and they differ.
pub open spec fn spec_hostile(a: Faction, b: Faction) -> bool {
    a != Faction::Neutral && b != Faction::Neutral && a != b
}

impl Faction {
    /// Whether units of `self` attack units of `other`.
    pub fn is_hostile_to(&self, other: &Faction) -> (res: bool)
        ensures
            res == spec_hostile(*self, *other),
    {
        match (self, other) {
            (Faction::Neutral, _) | (_, Faction::Neutral) => false,
            (a, b) => *a != *b,
        }
    }
}

impl Default for Faction {
    fn default() -> (res: Self)
        ensures
            res == Faction::Player1,
    {
        Faction::Player1
    }
}

/// Hostility goes both ways, nobody is hostile to its own side, and the neutral side is
/// hostile to nobody.
pub proof fn law_hostility(a: Faction, b: Faction)
    ensures
        spec_hostile(a, b) == spec_hostile(b, a),
        !spec_hostile(a, a),
        !spec_hostile(Faction::Neutral, b),
{
}

} // verus!
