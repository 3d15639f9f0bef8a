//! The two cards of the game.

use vstd::prelude::*;

verus! {

/// The symbol a player places on a cell of the board.
#[derive(Debug, Copy, Clone, PartialEq, Eq, Structural)]
pub enum Card {
    X,
    O,
}

impl Card {
    /// The card that is not `self`.
    pub open spec fn spec_other(self) -> Card {
        match self {
            Card::X => Card::O,
            Card::O => Card::X,
        }
    }

    /// Returns the card that is not `self`.
    #[verifier::when_used_as_spec(spec_other)]
    pub fn other(self) -> (r: Card)
        ensures
            r == self.spec_other(),
    {
        match self {
            Card::X => Card::O,
            Card::O => Card::X,
        }
    }
}

} // verus!
