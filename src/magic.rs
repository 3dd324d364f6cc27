use vstd::prelude::*;

verus! {

/// The two kinds of magic; CHAOS hits harder and aims erratically.
#[derive(Clone, Copy, Debug, PartialEq, Eq, Structural)]
pub enum MagicType {
    ORDER,
    CHAOS,
}

/// The six power tiers of a spell, weakest first.
#[derive(Clone, Copy, Debug, PartialEq, Eq, Structural)]
pub enum MagicRank {
    Common,
    Uncommon,
    Epic,
    Legendary,
    Mythic,
    Divine,
}

/// Position of a rank in the order Common < ... < Divine.
pub open spec fn rank_index(r: MagicRank) -> int {
    match r {
        MagicRank::Common => 0,
        MagicRank::Uncommon => 1,
        MagicRank::Epic => 2,
        MagicRank::Legendary => 3,
        MagicRank::Mythic => 4,
        MagicRank::Divine => 5,
    }
}

/// The rank numbered `i`; numbers outside 0..=5 fall back to Common.
pub open spec fn rank_of_int(i: int) -> MagicRank {
    if i == 1 {
        MagicRank::Uncommon
    } else if i == 2 {
        MagicRank::Epic
    } else if i == 3 {
        MagicRank::Legendary
    } else if i == 4 {
        MagicRank::Mythic
    } else if i == 5 {
        MagicRank::Divine
    } else {
        MagicRank::Common
    }
}

/// Turns a rank number from a definition file into a rank.
pub fn i_to_magic_rank(i: i64) -> (r: MagicRank)
    ensures
        r == rank_of_int(i as int),
        0 <= i <= 5 ==> rank_index(r) == i,
{
    match i {
        1 => MagicRank::Uncommon,
        2 => MagicRank::Epic,
        3 => MagicRank::Legendary,
        4 => MagicRank::Mythic,
        5 => MagicRank::Divine,
        _ => MagicRank::Common,
    }
}

/// A spell definition. `race_mult` keeps the multiplier's literal text as
/// it was written in the definition file.
#[derive(Debug, PartialEq)]
pub struct Magic {
    pub name: String,
    pub rank: MagicRank,
    pub typ: MagicType,
    pub always_def: bool,
    pub table_addon: i64,
    pub race_mult: String,
}

/// What a `Magic` holds, with its strings as character sequences.
pub struct MagicView {
    pub name: Seq<char>,
    pub rank: MagicRank,
    pub typ: MagicType,
    pub always_def: bool,
    pub table_addon: int,
    pub race_mult: Seq<char>,
}

impl View for Magic {
    type V = MagicView;

    open spec fn view(&self) -> MagicView {
        MagicView {
            name: self.name@,
            rank: self.rank,
            typ: self.typ,
            always_def: self.always_def,
            table_addon: self.table_addon as int,
            race_mult: self.race_mult@,
        }
    }
}

/// The literal of the default race multiplier.
pub open spec fn default_race_mult() -> Seq<char> {
    seq!['1', '.', '0']
}

/// A freshly registered spell: every attribute at its default.
pub open spec fn default_magic(name: Seq<char>) -> MagicView {
    MagicView {
        name,
        rank: MagicRank::Common,
        typ: MagicType::ORDER,
        always_def: false,
        table_addon: 0,
        race_mult: default_race_mult(),
    }
}

impl Magic {
    /// A spell called `name` with every attribute at its default.
    pub fn new(name: String) -> (r: Magic)
        ensures
            r@ == default_magic(name@),
    {
        let mut race_mult = String::new();
        race_mult.append("1.0");
        proof {
            reveal_strlit("1.0");
        }
        assert(race_mult@ =~= default_race_mult());
        Magic {
            name,
            rank: MagicRank::Common,
            typ: MagicType::ORDER,
            always_def: false,
            table_addon: 0,
            race_mult,
        }
    }

    /// A copy of this spell.
    pub fn duplicate(&self) -> (r: Magic)
        ensures
            r@ == self@,
    {
        Magic {
            name: self.name.clone(),
            rank: self.rank,
            typ: self.typ,
            always_def: self.always_def,
            table_addon: self.table_addon,
            race_mult: self.race_mult.clone(),
        }
    }
}

} // verus!
