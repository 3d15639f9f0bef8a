//! A player and the card assigned to them.

use vstd::prelude::*;
use crate::card::Card;

verus! {

/// A participant of the game. A player without a card cannot move.
#[derive(Debug, Clone, Copy, PartialEq, Eq, Structural)]
pub struct Player {
    pub card: Option<Card>,
}

impl Player {
    /// Creates a player with no card assigned.
    pub fn new() -> (p: Self)
        ensures
            p.card is None,
    {
        Self { card: None }
    }

    /// Assigns `card` to the player, or takes their card away with `None`.
    pub fn set_card(&mut self, card: Option<Card>)
        ensures
            final(self).card == card,
    {
        self.card = card;
    }
}

} // verus!
