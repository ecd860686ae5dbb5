use battle_core::rng::XorShiftRng;
use battle_core::state::{CardSet, CardSetEntry, STARTING_BAG_SIZE};
use battle_core::types::CardId;
use battle_core::units::create_starting_bag;

fn catalog(entries: &[(u32, u32)]) -> CardSet {
    CardSet {
        cards: entries
            .iter()
            .map(|&(id, rarity)| CardSetEntry { card_id: CardId(id), rarity })
            .collect(),
    }
}

fn ids(bag: &[CardId]) -> Vec<u32> {
    bag.iter().map(|c| c.0).collect()
}

#[test]
fn rng_first_values() {
    let mut rng = XorShiftRng::seed_from_u64(1);
    assert_eq!(rng.next_u64(), 1082269761);
    assert_eq!(rng.next_u64(), 1152992998833853505);
    let mut rng = XorShiftRng::seed_from_u64(1);
    assert_eq!(rng.gen_range(100), 61);
    assert_eq!(rng.gen_range(7), 6);
}

#[test]
fn rng_zero_seed_and_zero_bound() {
    let mut rng = XorShiftRng::seed_from_u64(0);
    assert_eq!(rng.gen_range(1000), 989);
    let mut a = XorShiftRng::seed_from_u64(0);
    let mut b = XorShiftRng::seed_from_u64(0);
    assert_eq!(a.gen_range(0), 0);
    // A draw with bound zero still advances the generator.
    assert_eq!(a.next_u64(), {
        let _ = b.next_u64();
        b.next_u64()
    });
}

#[test]
fn rng_stays_below_bound() {
    let mut rng = XorShiftRng::seed_from_u64(123456789);
    for bound in 1..200usize {
        assert!(rng.gen_range(bound) < bound);
    }
}

#[test]
fn empty_catalog_gives_empty_bag() {
    for seed in [0u64, 1, 42, u64::MAX] {
        assert!(create_starting_bag(&catalog(&[]), seed).is_empty());
    }
}

#[test]
fn weightless_catalog_gives_empty_bag() {
    for seed in [0u64, 1, 42, u64::MAX] {
        assert!(create_starting_bag(&catalog(&[(1, 0), (2, 0)]), seed).is_empty());
    }
}

#[test]
fn zero_weight_is_never_drawn() {
    for seed in [0u64, 1, 2, 3, 42, 1000, u64::MAX] {
        let bag = create_starting_bag(&catalog(&[(11, 1), (22, 0)]), seed);
        assert_eq!(bag, vec![CardId(11); STARTING_BAG_SIZE]);
        let bag = create_starting_bag(&catalog(&[(22, 0), (11, 1)]), seed);
        assert_eq!(bag, vec![CardId(11); STARTING_BAG_SIZE]);
    }
}

#[test]
fn bag_size_is_fifty() {
    assert_eq!(STARTING_BAG_SIZE, 50);
    let bag = create_starting_bag(&catalog(&[(1, 5), (2, 0), (3, 2), (4, 1)]), 7);
    assert_eq!(bag.len(), 50);
    assert!(!bag.contains(&CardId(2)));
}

#[test]
fn bag_for_seed_one() {
    let bag = create_starting_bag(&catalog(&[(7, 1), (9, 3)]), 1);
    assert_eq!(
        ids(&bag),
        vec![
            9, 9, 9, 9, 9, 9, 9, 9, 9, 9, 7, 9, 9, 9, 7, 9, 9, 9, 9, 7, 7, 9, 9, 9, 9, 7, 9, 9,
            9, 7, 7, 7, 7, 7, 9, 9, 9, 7, 9, 9, 9, 9, 9, 9, 9, 9, 9, 9, 9, 9
        ]
    );
}

#[test]
fn bag_for_seed_forty_two() {
    let bag = create_starting_bag(&catalog(&[(1, 5), (2, 0), (3, 2), (4, 1)]), 42);
    assert_eq!(
        ids(&bag),
        vec![
            1, 4, 1, 1, 1, 1, 1, 1, 1, 3, 4, 1, 1, 3, 1, 4, 1, 3, 4, 1, 4, 1, 1, 1, 4, 1, 3, 1,
            1, 1, 1, 1, 3, 1, 1, 1, 4, 1, 4, 3, 3, 3, 1, 1, 3, 4, 3, 3, 3, 1
        ]
    );
}

#[test]
fn bag_for_seed_zero() {
    let bag = create_starting_bag(&catalog(&[(1, 5), (2, 0), (3, 2), (4, 1)]), 0);
    assert_eq!(ids(&bag[..10]), vec![3, 3, 3, 1, 1, 1, 4, 1, 1, 3]);
}

#[test]
fn same_seed_same_bag() {
    let set = catalog(&[(1, 3), (2, 3), (3, 3)]);
    assert_eq!(create_starting_bag(&set, 99), create_starting_bag(&set, 99));
}
