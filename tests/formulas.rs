use spellbook::formula::{accuracy_factor, multiplier_floor, multiplier_tenths, total_damage};
use spellbook::magic::{i_to_magic_rank, MagicRank, MagicType};

const RANKS: [MagicRank; 6] = [
    MagicRank::Common,
    MagicRank::Uncommon,
    MagicRank::Epic,
    MagicRank::Legendary,
    MagicRank::Mythic,
    MagicRank::Divine,
];

#[test]
fn multiplier_table_is_exact() {
    let order = [40, 60, 90, 130, 180, 240];
    let chaos = [55, 75, 105, 145, 195, 255];
    for k in 0..6 {
        assert_eq!(multiplier_tenths(RANKS[k], MagicType::ORDER), order[k]);
        assert_eq!(multiplier_tenths(RANKS[k], MagicType::CHAOS), chaos[k]);
    }
}

#[test]
fn multiplier_grows_with_rank() {
    for typ in [MagicType::ORDER, MagicType::CHAOS] {
        for k in 1..6 {
            assert!(multiplier_tenths(RANKS[k - 1], typ) < multiplier_tenths(RANKS[k], typ));
        }
    }
}

#[test]
fn multiplier_floor_drops_the_half() {
    assert_eq!(multiplier_floor(MagicRank::Common, MagicType::CHAOS), 5);
    assert_eq!(multiplier_floor(MagicRank::Divine, MagicType::CHAOS), 25);
    assert_eq!(multiplier_floor(MagicRank::Epic, MagicType::ORDER), 9);
}

#[test]
fn total_damage_is_mana_times_floor() {
    assert_eq!(total_damage(3, MagicRank::Epic, MagicType::CHAOS), 30);
    assert_eq!(total_damage(7, MagicRank::Common, MagicType::ORDER), 28);
    assert_eq!(total_damage(0, MagicRank::Divine, MagicType::ORDER), 0);
    assert_eq!(
        total_damage(i64::MAX, MagicRank::Divine, MagicType::CHAOS),
        (i64::MAX as i128) * 25
    );
}

#[test]
fn chaos_even_accuracy_matches_order() {
    assert_eq!(accuracy_factor(10, MagicType::CHAOS), accuracy_factor(10, MagicType::ORDER));
    assert_eq!(accuracy_factor(10, MagicType::ORDER), 300);
}

#[test]
fn chaos_odd_accuracy_differs() {
    let chaos = accuracy_factor(11, MagicType::CHAOS);
    assert_ne!(chaos, accuracy_factor(11, MagicType::ORDER));
    assert_eq!(chaos, 299);
    let as_float = chaos as f64 / 400.0;
    assert!((as_float - (0.5 + 11.0 * 0.18 / 8.0)).abs() < 1e-12);
}

#[test]
fn order_accuracy_factor_formula() {
    assert_eq!(accuracy_factor(0, MagicType::ORDER), 200);
    assert_eq!(accuracy_factor(-3, MagicType::ORDER), 170);
    assert_eq!(accuracy_factor(-3, MagicType::CHAOS), 173);
}

#[test]
fn damage_parts_non_negative_for_non_negative_inputs() {
    for accr in 0..20 {
        for mana in 0..20 {
            for typ in [MagicType::ORDER, MagicType::CHAOS] {
                for rank in RANKS {
                    assert!(total_damage(mana, rank, typ) >= 0);
                    assert!(accuracy_factor(accr, typ) >= 200);
                }
            }
        }
    }
}

#[test]
fn rank_numbers_map_to_ranks() {
    for k in 0..6 {
        assert_eq!(i_to_magic_rank(k as i64), RANKS[k]);
    }
    assert_eq!(i_to_magic_rank(6), MagicRank::Common);
    assert_eq!(i_to_magic_rank(-1), MagicRank::Common);
}
