//! The master tempo clock.

use vstd::prelude::*;
use crate::api::Deck;

verus! {

/// Master clock status.
///
/// The BPM value is carried as the raw bit pattern of the source's numeric
/// value; the store copies it verbatim and never interprets it.
pub struct MasterClock {
    /// Current master deck if any
    pub deck: Option<Deck>,
    /// Current BPM, as an opaque bit pattern
    pub bpm: u32,
}

impl MasterClock {
    /// A clock with no master deck and a zero BPM value.
    pub fn new() -> (clock: MasterClock)
        ensures
            clock.deck is None,
            clock.bpm == 0,
    {
        MasterClock { deck: None, bpm: 0 }
    }

    /// Replaces the whole clock value; nothing of the previous value is kept.
    pub fn set(&mut self, new: MasterClock)
        ensures
            *final(self) == new,
    {
        *self = new;
    }
}

} // verus!
