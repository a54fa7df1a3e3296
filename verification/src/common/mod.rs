//! Types shared by every card game: cards, decks and hands.

pub mod card;
pub mod deck;
pub mod hand;
pub mod random;
pub mod text;
