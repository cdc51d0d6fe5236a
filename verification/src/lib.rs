//! A standard 52-card deck: suits, ranks, cards with a dense index,
//! and a deck supporting random and deterministic draws, returns and reset.

pub mod card;
pub mod deck;
pub mod error;
