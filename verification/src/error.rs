use vstd::prelude::*;

verus! {

/// The failures the deck operations can report.
#[derive(Copy, Clone, Debug, PartialEq, Eq, Structural)]
pub enum DeckError {
    /// A parse was handed a character or an index outside the valid set.
    InvalidInput,
    /// A draw was attempted while no undrawn card remained.
    EmptyDeck,
    /// A card was returned that is not currently in play.
    InvalidState,
}

} // verus!
