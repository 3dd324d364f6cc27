use vstd::prelude::*;

use crate::magic::{rank_index, MagicRank, MagicType};

verus! {

/// Multipliers are kept in tenths so that they are exact integers.
pub const MULTIPLIER_SCALE: u64 = 10;

/// Accuracy factors are kept in four-hundredths so that they are exact integers.
pub const ACCURACY_SCALE: i128 = 400;

/// The damage multiplier of a rank and type, in tenths
/// (Common ORDER is 4.0, Common CHAOS 5.5, ..., Divine CHAOS 25.5).
pub open spec fn multiplier_tenths_spec(rank: MagicRank, typ: MagicType) -> int {
    let order = match rank {
        MagicRank::Common => 40,
        MagicRank::Uncommon => 60,
        MagicRank::Epic => 90,
        MagicRank::Legendary => 130,
        MagicRank::Mythic => 180,
        MagicRank::Divine => 240,
    };
    match typ {
        MagicType::ORDER => order,
        MagicType::CHAOS => order + 15,
    }
}

/// The accuracy factor of an accuracy value, in four-hundredths:
/// `0.5 + accr * 0.025`, except for CHAOS with odd accuracy, where it is
/// `0.5 + accr * 0.18 / 8`.
pub open spec fn accuracy_factor_spec(accr: int, typ: MagicType) -> int {
    match typ {
        MagicType::ORDER => 200 + 10 * accr,
        MagicType::CHAOS => if accr % 2 == 0 {
            200 + 10 * accr
        } else {
            200 + 9 * accr
        },
    }
}

/// The damage multiplier of a rank and type, in tenths.
pub fn multiplier_tenths(rank: MagicRank, typ: MagicType) -> (r: u64)
    ensures
        r == multiplier_tenths_spec(rank, typ),
{
    let order: u64 = match rank {
        MagicRank::Common => 40,
        MagicRank::Uncommon => 60,
        MagicRank::Epic => 90,
        MagicRank::Legendary => 130,
        MagicRank::Mythic => 180,
        MagicRank::Divine => 240,
    };
    match typ {
        MagicType::ORDER => order,
        MagicType::CHAOS => order + 15,
    }
}

/// The whole part of the damage multiplier.
pub fn multiplier_floor(rank: MagicRank, typ: MagicType) -> (r: u64)
    ensures
        r == multiplier_tenths_spec(rank, typ) / 10,
{
    multiplier_tenths(rank, typ) / MULTIPLIER_SCALE
}

/// Total damage: `mana * floor(multiplier)`.
pub fn total_damage(mana: i64, rank: MagicRank, typ: MagicType) -> (r: i128)
    ensures
        r == mana as int * (multiplier_tenths_spec(rank, typ) / 10),
{
    let m = multiplier_floor(rank, typ);
    assert(m <= 25);
    assert(-25 * 0x8000_0000_0000_0000 <= (mana as i128) * (m as i128) <= 25 * 0x8000_0000_0000_0000)
        by (nonlinear_arith)
        requires
            0 <= m <= 25,
            -0x8000_0000_0000_0000 <= mana < 0x8000_0000_0000_0000,
    ;
    (mana as i128) * (m as i128)
}

/// The accuracy factor of `accr`, in four-hundredths of a unit.
pub fn accuracy_factor(accr: i64, typ: MagicType) -> (r: i128)
    ensures
        r == accuracy_factor_spec(accr as int, typ),
{
    let a = accr as i128;
    match typ {
        MagicType::ORDER => 200 + 10 * a,
        MagicType::CHAOS => {
            if accr % 2 == 0 {
                200 + 10 * a
            } else {
                200 + 9 * a
            }
        },
    }
}

/// For either type the multiplier grows with the rank, and CHAOS is always
/// exactly 1.5 above ORDER at the same rank.
pub proof fn lemma_multiplier_monotone(r1: MagicRank, r2: MagicRank, typ: MagicType)
    requires
        rank_index(r1) <= rank_index(r2),
    ensures
        multiplier_tenths_spec(r1, typ) <= multiplier_tenths_spec(r2, typ),
        rank_index(r1) < rank_index(r2) ==> multiplier_tenths_spec(r1, typ)
            < multiplier_tenths_spec(r2, typ),
        multiplier_tenths_spec(r1, MagicType::CHAOS) == multiplier_tenths_spec(r1, MagicType::ORDER)
            + 15,
{
}

/// CHAOS aims like ORDER on even accuracy; on odd accuracy it uses
/// `0.5 + accr * 0.18 / 8`, which differs from ORDER for every odd value.
pub proof fn lemma_chaos_parity(accr: int)
    ensures
        accr % 2 == 0 ==> accuracy_factor_spec(accr, MagicType::CHAOS) == accuracy_factor_spec(
            accr,
            MagicType::ORDER,
        ),
        accr % 2 != 0 ==> accuracy_factor_spec(accr, MagicType::CHAOS) == 200 + 9 * accr,
        accr % 2 != 0 ==> accuracy_factor_spec(accr, MagicType::CHAOS) != accuracy_factor_spec(
            accr,
            MagicType::ORDER,
        ),
        accuracy_factor_spec(10, MagicType::CHAOS) == accuracy_factor_spec(10, MagicType::ORDER),
        accuracy_factor_spec(11, MagicType::CHAOS) == 299,
        accuracy_factor_spec(11, MagicType::CHAOS) != accuracy_factor_spec(11, MagicType::ORDER),
{
}

/// For non-negative accuracy and mana, total damage and accuracy factor are
/// both non-negative, so their product with a non-negative race multiplier is.
pub proof fn lemma_damage_parts_nonneg(accr: int, mana: int, rank: MagicRank, typ: MagicType)
    requires
        accr >= 0,
        mana >= 0,
    ensures
        mana * (multiplier_tenths_spec(rank, typ) / 10) >= 0,
        accuracy_factor_spec(accr, typ) >= 200,
{
    assert(mana * (multiplier_tenths_spec(rank, typ) / 10) >= 0) by (nonlinear_arith)
        requires
            mana >= 0,
            multiplier_tenths_spec(rank, typ) >= 0,
    ;
}

} // verus!
