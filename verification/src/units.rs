//! Seeded, weighted drawing of a starting bag from a catalog.

use crate::rng::{ranged, seed_state, state_after, XorShiftRng};
use crate::state::{CardSet, CardSetEntry, STARTING_BAG_SIZE};
use crate::types::CardId;
use vstd::prelude::*;

verus! {

/// Sum of the weights of the entries from index `from` on.
pub open spec fn weight_from(cards: Seq<CardSetEntry>, from: int) -> nat
    decreases cards.len() - from,
{
    if from < 0 || from >= cards.len() {
        0
    } else {
        cards[from].rarity as nat + weight_from(cards, from + 1)
    }
}

/// Sum of all weights of a catalog.
pub open spec fn total_weight(cards: Seq<CardSetEntry>) -> nat {
    weight_from(cards, 0)
}

/// The card selected by walking the entries from index `from` on with
/// `target` left: the first entry whose weight exceeds what is left is
/// taken, every other entry takes its weight off.
pub open spec fn pick(cards: Seq<CardSetEntry>, from: int, target: int) -> Option<CardId>
    decreases cards.len() - from,
{
    if from < 0 || from >= cards.len() {
        None
    } else if target < cards[from].rarity {
        Some(cards[from].card_id)
    } else {
        pick(cards, from + 1, target - cards[from].rarity)
    }
}

/// The first `count` draws from a generator in state `state`: each draw
/// takes the next value below the total weight and selects by it.
pub open spec fn draws(cards: Seq<CardSetEntry>, state: u64, count: nat) -> Seq<CardId>
    decreases count,
{
    if count == 0 {
        Seq::empty()
    } else {
        let before = draws(cards, state, (count - 1) as nat);
        let target = ranged(state_after(state, (count - 1) as nat), total_weight(cards) as int);
        match pick(cards, 0, target) {
            Some(id) => before.push(id),
            None => before,
        }
    }
}

/// The starting bag for a catalog and a seed: empty for a catalog without
/// entries or without weight, else [`STARTING_BAG_SIZE`] draws.
pub open spec fn starting_bag(cards: Seq<CardSetEntry>, seed: u64) -> Seq<CardId> {
    if cards.len() == 0 || total_weight(cards) == 0 {
        Seq::empty()
    } else {
        draws(cards, seed_state(seed), STARTING_BAG_SIZE as nat)
    }
}

/// Whether some entry of the catalog with positive weight carries `id`.
pub open spec fn is_weighted(cards: Seq<CardSetEntry>, id: CardId) -> bool {
    exists|j: int| 0 <= j < cards.len() && cards[j].rarity > 0 && cards[j].card_id == id
}

/// The weights from any index on sum to no more than the total.
pub proof fn lemma_weight_from_bounded(cards: Seq<CardSetEntry>, from: int)
    requires
        0 <= from <= cards.len(),
    ensures
        weight_from(cards, from) <= total_weight(cards),
    decreases from,
{
    if from > 0 {
        lemma_weight_from_bounded(cards, from - 1);
    }
}

/// Sums the weights of a catalog.
fn sum_weights(cards: &Vec<CardSetEntry>) -> (total: u32)
    requires
        total_weight(cards@) <= u32::MAX,
    ensures
        total == total_weight(cards@),
{
    let mut total: u32 = 0;
    let mut i: usize = 0;
    while i < cards.len()
        invariant
            i <= cards.len(),
            total_weight(cards@) <= u32::MAX,
            total + weight_from(cards@, i as int) == total_weight(cards@),
        decreases cards.len() - i,
    {
        total += cards[i].rarity;
        i += 1;
    }
    total
}

/// Draws a starting bag from a catalog: [`STARTING_BAG_SIZE`] cards, each
/// selected independently with a chance proportional to its weight, by a
/// generator seeded with `seed`. A catalog without entries or without weight
/// gives an empty bag.
pub fn create_starting_bag(set: &CardSet, seed: u64) -> (bag: Vec<CardId>)
    requires
        total_weight(set.cards@) <= u32::MAX,
    ensures
        bag@ == starting_bag(set.cards@, seed),
{
    if set.cards.len() == 0 {
        return Vec::new();
    }
    let mut bag: Vec<CardId> = Vec::with_capacity(STARTING_BAG_SIZE);
    let mut rng = XorShiftRng::seed_from_u64(seed);
    let total_weight: u32 = sum_weights(&set.cards);
    if total_weight == 0 {
        return Vec::new();
    }
    let ghost cards = set.cards@;
    let mut drawn: usize = 0;
    while drawn < STARTING_BAG_SIZE
        invariant
            drawn <= STARTING_BAG_SIZE,
            cards == set.cards@,
            total_weight == self::total_weight(cards),
            total_weight > 0,
            rng@ == state_after(seed_state(seed), drawn as nat),
            bag@ == draws(cards, seed_state(seed), drawn as nat),
        decreases STARTING_BAG_SIZE - drawn,
    {
        let ghost before = bag@;
        let mut target: u32 = rng.gen_range(total_weight as usize) as u32;
        let ghost first = target as int;
        let mut j: usize = 0;
        let mut picked = false;
        while j < set.cards.len() && !picked
            invariant
                j <= set.cards.len(),
                cards == set.cards@,
                !picked ==> pick(cards, j as int, target as int) == pick(cards, 0, first),
                !picked ==> bag@ == before,
                picked ==> pick(cards, 0, first) is Some,
                picked ==> bag@ == before.push(pick(cards, 0, first)->0),
            decreases set.cards.len() - j,
        {
            let entry = &set.cards[j];
            if entry.rarity != 0 {
                if target < entry.rarity {
                    bag.push(entry.card_id);
                    picked = true;
                } else {
                    target -= entry.rarity;
                }
            }
            j += 1;
        }
        drawn += 1;
    }
    bag
}

/// A walk that starts with less left than the remaining entries weigh
/// selects a card, and that card belongs to an entry with positive weight.
pub proof fn lemma_pick_is_weighted(cards: Seq<CardSetEntry>, from: int, target: int)
    requires
        0 <= from,
        0 <= target < weight_from(cards, from),
    ensures
        pick(cards, from, target) is Some,
        is_weighted(cards, pick(cards, from, target)->0),
    decreases cards.len() - from,
{
    if target < cards[from].rarity {
        assert(cards[from].rarity > 0 && cards[from].card_id == pick(cards, from, target)->0);
    } else {
        lemma_pick_is_weighted(cards, from + 1, target - cards[from].rarity);
    }
}

/// From a catalog with some weight every draw selects a card: `count` draws
/// give `count` cards, each of an entry with positive weight. An entry with
/// weight zero is never drawn.
pub proof fn lemma_draws_are_weighted(cards: Seq<CardSetEntry>, state: u64, count: nat)
    requires
        total_weight(cards) > 0,
    ensures
        draws(cards, state, count).len() == count,
        forall|i: int|
            0 <= i < count ==> is_weighted(cards, #[trigger] draws(cards, state, count)[i]),
    decreases count,
{
    if count > 0 {
        lemma_draws_are_weighted(cards, state, (count - 1) as nat);
        let target = ranged(state_after(state, (count - 1) as nat), total_weight(cards) as int);
        lemma_pick_is_weighted(cards, 0, target);
    }
}

/// The total weight of a catalog is at least the weight of each entry.
pub proof fn lemma_entry_weighs_in(cards: Seq<CardSetEntry>, k: int)
    requires
        0 <= k < cards.len(),
    ensures
        total_weight(cards) >= cards[k].rarity,
{
    lemma_weight_from_bounded(cards, k);
}

/// The bag of a catalog without entries is empty, whatever the seed.
pub proof fn lemma_empty_catalog_empty_bag(seed: u64)
    ensures
        starting_bag(Seq::<CardSetEntry>::empty(), seed) == Seq::<CardId>::empty(),
{
}

/// The bag of a catalog with some weight has [`STARTING_BAG_SIZE`] cards,
/// each of an entry with positive weight.
pub proof fn lemma_bag_is_full_and_weighted(cards: Seq<CardSetEntry>, seed: u64)
    requires
        total_weight(cards) > 0,
    ensures
        starting_bag(cards, seed).len() == STARTING_BAG_SIZE,
        forall|i: int|
            0 <= i < STARTING_BAG_SIZE ==> is_weighted(
                cards,
                #[trigger] starting_bag(cards, seed)[i],
            ),
{
    lemma_draws_are_weighted(cards, seed_state(seed), STARTING_BAG_SIZE as nat);
}

/// Where one entry alone has a positive weight, the bag holds that entry's
/// card [`STARTING_BAG_SIZE`] times, whatever the seed.
pub proof fn lemma_single_weighted_entry(cards: Seq<CardSetEntry>, k: int, seed: u64)
    requires
        0 <= k < cards.len(),
        cards[k].rarity > 0,
        forall|j: int| 0 <= j < cards.len() && j != k ==> cards[j].rarity == 0,
    ensures
        starting_bag(cards, seed) == Seq::new(STARTING_BAG_SIZE as nat, |i: int| cards[k].card_id),
{
    lemma_entry_weighs_in(cards, k);
    lemma_bag_is_full_and_weighted(cards, seed);
    let bag = starting_bag(cards, seed);
    assert forall|i: int| 0 <= i < STARTING_BAG_SIZE implies bag[i] == cards[k].card_id by {
        assert(is_weighted(cards, bag[i]));
    }
    assert(bag =~= Seq::new(STARTING_BAG_SIZE as nat, |i: int| cards[k].card_id));
}

} // verus!
