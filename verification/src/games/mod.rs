//! The games that come with the library.

use vstd::prelude::*;

pub mod war;

verus! {

/// A game that is played step by step.
pub trait Game {
    /// What a step reports when it went through.
    type TickOk;

    /// What a step reports when the game cannot go on.
    type TickError;

    /// Advances the game by one step.
    fn tick(&mut self) -> Result<Self::TickOk, Self::TickError>;
}

} // verus!
