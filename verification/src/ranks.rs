use vstd::prelude::*;
use vstd::string::StringExecFns;

verus! {

/// A competitive tier, together with the sentinel `Unranked`.
#[derive(Clone, Copy, Debug, PartialEq, Eq, Structural)]
pub enum Tier {
    Iron,
    Bronze,
    Silver,
    Gold,
    Platinum,
    Emerald,
    Diamond,
    Master,
    Grandmaster,
    Challenger,
    Unranked,
}

/// A division within a tier, I (highest) through IV (lowest).
#[derive(Clone, Copy, Debug, PartialEq, Eq, Structural)]
pub enum Rank {
    I,
    II,
    III,
    IV,
}

/// The label a tier carries in notification text.
pub open spec fn tier_label(t: Tier) -> Seq<char> {
    match t {
        Tier::Iron => "IRON"@,
        Tier::Bronze => "BRONZE"@,
        Tier::Silver => "SILVER"@,
        Tier::Gold => "GOLD"@,
        Tier::Platinum => "PLATINUM"@,
        Tier::Emerald => "EMERALD"@,
        Tier::Diamond => "DIAMOND"@,
        Tier::Master => "MASTER"@,
        Tier::Grandmaster => "GRANDMASTER"@,
        Tier::Challenger => "CHALLENGER"@,
        Tier::Unranked => "UNRANKED"@,
    }
}

/// The code under which a tier is persisted.
pub open spec fn tier_code(t: Tier) -> u8 {
    match t {
        Tier::Iron => 40,
        Tier::Bronze => 60,
        Tier::Silver => 80,
        Tier::Gold => 100,
        Tier::Platinum => 120,
        Tier::Emerald => 130,
        Tier::Diamond => 140,
        Tier::Master => 180,
        Tier::Grandmaster => 200,
        Tier::Challenger => 220,
        Tier::Unranked => 0,
    }
}

/// The label a rank carries in notification text.
pub open spec fn rank_label(r: Rank) -> Seq<char> {
    match r {
        Rank::I => "I"@,
        Rank::II => "II"@,
        Rank::III => "III"@,
        Rank::IV => "IV"@,
    }
}

/// The code under which a rank is persisted.
pub open spec fn rank_code(r: Rank) -> u8 {
    match r {
        Rank::I => 1,
        Rank::II => 2,
        Rank::III => 3,
        Rank::IV => 4,
    }
}

impl Tier {
    /// The label of this tier.
    pub fn label(&self) -> (r: String)
        ensures
            r@ == tier_label(*self),
    {
        match self {
            Tier::Iron => String::from_str("IRON"),
            Tier::Bronze => String::from_str("BRONZE"),
            Tier::Silver => String::from_str("SILVER"),
            Tier::Gold => String::from_str("GOLD"),
            Tier::Platinum => String::from_str("PLATINUM"),
            Tier::Emerald => String::from_str("EMERALD"),
            Tier::Diamond => String::from_str("DIAMOND"),
            Tier::Master => String::from_str("MASTER"),
            Tier::Grandmaster => String::from_str("GRANDMASTER"),
            Tier::Challenger => String::from_str("CHALLENGER"),
            Tier::Unranked => String::from_str("UNRANKED"),
        }
    }

    /// The code under which this tier is persisted.
    pub fn code(&self) -> (r: u8)
        ensures
            r == tier_code(*self),
    {
        match self {
            Tier::Iron => 40,
            Tier::Bronze => 60,
            Tier::Silver => 80,
            Tier::Gold => 100,
            Tier::Platinum => 120,
            Tier::Emerald => 130,
            Tier::Diamond => 140,
            Tier::Master => 180,
            Tier::Grandmaster => 200,
            Tier::Challenger => 220,
            Tier::Unranked => 0,
        }
    }
}

impl Rank {
    /// The label of this rank.
    pub fn label(&self) -> (r: String)
        ensures
            r@ == rank_label(*self),
    {
        match self {
            Rank::I => String::from_str("I"),
            Rank::II => String::from_str("II"),
            Rank::III => String::from_str("III"),
            Rank::IV => String::from_str("IV"),
        }
    }

    /// The code under which this rank is persisted.
    pub fn code(&self) -> (r: u8)
        ensures
            r == rank_code(*self),
    {
        match self {
            Rank::I => 1,
            Rank::II => 2,
            Rank::III => 3,
            Rank::IV => 4,
        }
    }
}

} // verus!
