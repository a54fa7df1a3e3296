//! Card-game building blocks (ranks, suits, cards, decks, hands) and the
//! game of War played with them.
//!
//! The shared types live in [`crate::common`]; the games in [`crate::games`].

pub mod common;
pub mod games;
