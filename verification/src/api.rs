//! Wire-level entity types: decks, channels and the master clock.

use vstd::prelude::*;

pub mod channel;
pub mod deck;
pub mod master_clock;

verus! {

/// A deck identifier (letter)
pub type Deck = String;

/// A channel identifier (number)
pub type Channel = u8;

} // verus!
