//! The card catalog from which starting bags are drawn.

use crate::types::CardId;
use vstd::prelude::*;

verus! {

/// Number of cards in a starting bag.
pub const STARTING_BAG_SIZE: usize = 50;

/// One catalog entry: a card and the weight with which it is drawn. A larger
/// weight is drawn more often; weight zero is never drawn.
#[derive(Debug, Clone, Copy, PartialEq, Eq, Structural)]
pub struct CardSetEntry {
    pub card_id: CardId,
    pub rarity: u32,
}

/// A catalog of weighted cards, in a fixed order.
#[derive(Debug, Clone)]
pub struct CardSet {
    pub cards: Vec<CardSetEntry>,
}

} // verus!
