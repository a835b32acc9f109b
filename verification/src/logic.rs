//! The now-playing composer: which decks are audible right now, in the
//! configured display order.

use vstd::prelude::*;
use crate::api::{Channel, Deck};
use crate::api::channel::ChannelStatus;
use crate::api::deck::DeckStatus;
use crate::settings::MixingSettings;
use crate::store::{ChannelMap, DeckMap};

verus! {

/// Cover art read for a deck's loaded file.
pub struct Artwork {
    pub mime_type: String,
    pub data: Vec<u8>,
}

/// Whether `label` is audible: the routing table maps it to a channel, that
/// channel has a status and is on air, and the deck has a status and is
/// playing.
pub open spec fn audible(
    label: Seq<char>,
    routing: Map<Seq<char>, Channel>,
    decks: Map<Seq<char>, DeckStatus>,
    chans: Map<Channel, ChannelStatus>,
) -> bool {
    &&& routing.contains_key(label)
    &&& chans.contains_key(routing[label])
    &&& chans[routing[label]].is_on_air
    &&& decks.contains_key(label)
    &&& decks[label].is_playing
}

/// The statuses of the audible decks, in deck-list order. A deck with no
/// mapping, no channel status, an off-air channel, no deck status, or a
/// stopped track is silently excluded.
pub open spec fn songs_on_air_spec(
    deck_list: Seq<Deck>,
    routing: Map<Seq<char>, Channel>,
    decks: Map<Seq<char>, DeckStatus>,
    chans: Map<Channel, ChannelStatus>,
) -> Seq<DeckStatus>
    decreases deck_list.len(),
{
    if deck_list.len() == 0 {
        Seq::empty()
    } else {
        let front = songs_on_air_spec(deck_list.drop_last(), routing, decks, chans);
        if audible(deck_list.last()@, routing, decks, chans) {
            front.push(decks[deck_list.last()@])
        } else {
            front
        }
    }
}

/// The composed list is exactly the deck list restricted to its audible
/// decks, each replaced by its stored status: a filter that keeps the
/// configured order.
pub proof fn lemma_songs_on_air_is_filtered_deck_list(
    deck_list: Seq<Deck>,
    routing: Map<Seq<char>, Channel>,
    decks: Map<Seq<char>, DeckStatus>,
    chans: Map<Channel, ChannelStatus>,
)
    ensures
        songs_on_air_spec(deck_list, routing, decks, chans) == deck_list.filter(
            |label: Deck| audible(label@, routing, decks, chans),
        ).map_values(|label: Deck| decks[label@]),
    decreases deck_list.len(),
{
    reveal(Seq::filter);
    let pred = |label: Deck| audible(label@, routing, decks, chans);
    let to_status = |label: Deck| decks[label@];
    if deck_list.len() == 0 {
        assert(songs_on_air_spec(deck_list, routing, decks, chans) =~= deck_list.filter(
            pred,
        ).map_values(to_status));
    } else {
        lemma_songs_on_air_is_filtered_deck_list(deck_list.drop_last(), routing, decks, chans);
        if pred(deck_list.last()) {
            assert(deck_list.filter(pred) == deck_list.drop_last().filter(pred).push(
                deck_list.last(),
            ));
            assert(deck_list.drop_last().filter(pred).push(deck_list.last()).map_values(to_status)
                =~= deck_list.drop_last().filter(pred).map_values(to_status).push(
                to_status(deck_list.last()),
            ));
        }
    }
}

/// Composes the now-playing list: the stored status of every audible deck,
/// in the routing table's configured deck-list order.
pub fn get_songs_on_air(
    cur_decks: &DeckMap,
    cur_chans: &ChannelMap,
    mixing: &MixingSettings,
) -> (songs: Vec<DeckStatus>)
    requires
        cur_decks.wf(),
        cur_chans.wf(),
        mixing.wf(),
    ensures
        songs@ == songs_on_air_spec(mixing.deck_list@, mixing.routing(), cur_decks@, cur_chans@),
{
    let mut songs: Vec<DeckStatus> = Vec::new();
    let n = mixing.deck_list.len();
    let mut i: usize = 0;
    while i < n
        invariant
            n == mixing.deck_list@.len(),
            i <= n,
            cur_decks.wf(),
            cur_chans.wf(),
            mixing.wf(),
            songs@ == songs_on_air_spec(
                mixing.deck_list@.take(i as int),
                mixing.routing(),
                cur_decks@,
                cur_chans@,
            ),
        decreases n - i,
    {
        let deck = &mixing.deck_list[i];
        let on_air = match mixing.channel_of(deck) {
            Some(chan) => match cur_chans.get(chan) {
                Some(chan_stat) => chan_stat.is_on_air,
                None => false,
            },
            None => false,
        };
        if on_air {
            if let Some(status) = cur_decks.get(deck) {
                if status.is_playing {
                    songs.push(status.clone());
                }
            }
        }
        proof {
            let taken = mixing.deck_list@.take(i + 1);
            assert(taken.drop_last() =~= mixing.deck_list@.take(i as int));
            assert(taken.last() == mixing.deck_list@[i as int]);
        }
        i = i + 1;
    }
    proof {
        assert(mixing.deck_list@.take(n as int) =~= mixing.deck_list@);
    }
    songs
}

} // verus!
