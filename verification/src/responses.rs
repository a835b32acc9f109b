//! The two message shapes pushed to subscribers and served over HTTP: the
//! now-playing snapshot and the clock-only update.

use vstd::prelude::*;
use crate::api::Deck;
use crate::api::master_clock::MasterClock;
use crate::logic::{get_songs_on_air, songs_on_air_spec};
use crate::api::deck::DeckStatus;
use crate::settings::MixingSettings;
use crate::store::{ChannelMap, DeckMap};

verus! {

/// A now-playing snapshot: the clock's BPM and the audible decks in display
/// order, with the deck that caused the push when one did.
pub struct NowPlayingResponse {
    /// Current BPM, as an opaque bit pattern
    pub bpm: u32,
    /// Statuses of the audible decks, in deck-list order
    pub songs_on_air: Vec<DeckStatus>,
    /// The deck whose update caused this snapshot, if any
    pub ticked_deck: Option<Deck>,
}

impl NowPlayingResponse {
    /// A snapshot of the given store state, caused by no particular deck.
    pub fn create(
        clock: &MasterClock,
        cur_decks: &DeckMap,
        cur_chans: &ChannelMap,
        mixing: &MixingSettings,
    ) -> (resp: NowPlayingResponse)
        requires
            cur_decks.wf(),
            cur_chans.wf(),
            mixing.wf(),
        ensures
            resp.bpm == clock.bpm,
            resp.songs_on_air@ == songs_on_air_spec(
                mixing.deck_list@,
                mixing.routing(),
                cur_decks@,
                cur_chans@,
            ),
            resp.ticked_deck is None,
    {
        let bpm = clock.bpm;
        let songs_on_air = get_songs_on_air(cur_decks, cur_chans, mixing);
        NowPlayingResponse { songs_on_air, bpm, ticked_deck: None }
    }

    /// A snapshot of the given store state, caused by an update of
    /// `tick_reason`.
    pub fn tick(
        clock: &MasterClock,
        cur_decks: &DeckMap,
        cur_chans: &ChannelMap,
        mixing: &MixingSettings,
        tick_reason: Deck,
    ) -> (resp: NowPlayingResponse)
        requires
            cur_decks.wf(),
            cur_chans.wf(),
            mixing.wf(),
        ensures
            resp.bpm == clock.bpm,
            resp.songs_on_air@ == songs_on_air_spec(
                mixing.deck_list@,
                mixing.routing(),
                cur_decks@,
                cur_chans@,
            ),
            resp.ticked_deck == Some(tick_reason),
    {
        let bpm = clock.bpm;
        let songs_on_air = get_songs_on_air(cur_decks, cur_chans, mixing);
        NowPlayingResponse { songs_on_air, bpm, ticked_deck: Some(tick_reason) }
    }
}

/// A clock-only update: the master BPM and deck, sent on every clock change
/// independently of the snapshot broadcast.
pub struct BpmResponse {
    /// Current BPM, as an opaque bit pattern
    pub bpm: u32,
    /// Current master deck if any
    pub master_deck: Option<Deck>,
}

impl BpmResponse {
    /// The clock-only message that announces `clock`.
    pub fn from(clock: &MasterClock) -> (resp: BpmResponse)
        ensures
            resp.bpm == clock.bpm,
            resp.master_deck == clock.deck,
    {
        BpmResponse {
            bpm: clock.bpm,
            master_deck: match &clock.deck {
                Some(deck) => Some(deck.clone()),
                None => None,
            },
        }
    }
}

} // verus!
