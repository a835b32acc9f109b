//! The entity store: the deck table and the channel table.
//!
//! Each table is an exclusively-owned value here; callers that share one
//! across tasks guard it with a lock of their own, one lock per table.

use vstd::prelude::*;
use crate::api::{Channel, Deck};
use crate::api::channel::ChannelStatus;
use crate::api::deck::{merged, significant, DeckStatus, DeckStatusUpdate};
use crate::assoc::{assoc_map, lemma_assoc_map_dom, lemma_assoc_map_index, lemma_assoc_map_push,
    lemma_assoc_map_update, unique_keys};

verus! {

/// Failure of a deck update.
#[derive(Clone, Copy, Debug, PartialEq, Eq, Structural)]
pub enum UpdateError {
    /// The label has no entry in the deck table; nothing was changed.
    UnknownDeck,
}

/// The deck table: at most one status per deck label. A status for a label
/// comes into being only through `load_deck`; updates merge into an existing
/// entry and never create one.
pub struct DeckMap {
    entries: Vec<(Deck, DeckStatus)>,
}

impl View for DeckMap {
    type V = Map<Seq<char>, DeckStatus>;

    closed spec fn view(&self) -> Map<Seq<char>, DeckStatus> {
        assoc_map(self.entries@)
    }
}

impl DeckMap {
    /// No two entries share a label.
    pub closed spec fn wf(&self) -> bool {
        unique_keys(self.entries@)
    }

    /// An empty deck table.
    pub fn new() -> (decks: DeckMap)
        ensures
            decks.wf(),
            decks@ == Map::<Seq<char>, DeckStatus>::empty(),
    {
        DeckMap { entries: Vec::new() }
    }

    /// The status stored for `label`, if the deck has been loaded.
    pub fn get(&self, label: &Deck) -> (r: Option<&DeckStatus>)
        requires
            self.wf(),
        ensures
            match r {
                Some(status) => self@.contains_key(label@) && *status == self@[label@],
                None => !self@.contains_key(label@),
            },
    {
        let n = self.entries.len();
        let mut i: usize = 0;
        while i < n
            invariant
                n == self.entries@.len(),
                i <= n,
                self.wf(),
                forall|k: int| 0 <= k < i ==> self.entries@[k].0@ != label@,
            decreases n - i,
        {
            if self.entries[i].0 == *label {
                proof {
                    lemma_assoc_map_index(self.entries@, i as int);
                }
                return Some(&self.entries[i].1);
            }
            i = i + 1;
        }
        proof {
            lemma_assoc_map_dom(self.entries@, label@);
        }
        None
    }

    /// Replaces any existing entry for `label` unconditionally; a load is
    /// always broadcast-worthy, so the caller pushes a snapshot after every
    /// call.
    pub fn load_deck(&mut self, label: Deck, status: DeckStatus)
        requires
            old(self).wf(),
        ensures
            final(self).wf(),
            final(self)@ == old(self)@.insert(label@, status),
    {
        let n = self.entries.len();
        let mut i: usize = 0;
        while i < n
            invariant
                n == self.entries@.len(),
                i <= n,
                self.wf(),
                self.entries@ == old(self).entries@,
                forall|k: int| 0 <= k < i ==> self.entries@[k].0@ != label@,
            decreases n - i,
        {
            if self.entries[i].0 == label {
                proof {
                    lemma_assoc_map_update(self.entries@, i as int, (label, status));
                }
                self.entries[i] = (label, status);
                return;
            }
            i = i + 1;
        }
        proof {
            lemma_assoc_map_push(self.entries@, (label, status));
        }
        self.entries.push((label, status));
    }

    /// Merges the delta's present fields into the entry for `label`,
    /// last-write-wins per field, and reports whether the change is
    /// broadcast-significant. With no entry for `label` the table is left
    /// unchanged and the unknown-deck outcome is returned.
    pub fn update_deck(
        &mut self,
        label: &Deck,
        delta: DeckStatusUpdate,
        more_events: bool,
    ) -> (r: Result<bool, UpdateError>)
        requires
            old(self).wf(),
        ensures
            final(self).wf(),
            old(self)@.contains_key(label@) ==> {
                &&& r == Ok::<bool, UpdateError>(significant(delta, more_events))
                &&& final(self)@ == old(self)@.insert(
                    label@,
                    merged(old(self)@[label@], delta),
                )
            },
            !old(self)@.contains_key(label@) ==> {
                &&& r == Err::<bool, UpdateError>(UpdateError::UnknownDeck)
                &&& *final(self) == *old(self)
            },
    {
        let n = self.entries.len();
        let mut i: usize = 0;
        while i < n
            invariant
                n == self.entries@.len(),
                i <= n,
                self.wf(),
                *self == *old(self),
                forall|k: int| 0 <= k < i ==> self.entries@[k].0@ != label@,
            decreases n - i,
        {
            if self.entries[i].0 == *label {
                proof {
                    lemma_assoc_map_index(self.entries@, i as int);
                }
                let rslt = self.entries[i].1.update(delta, more_events);
                proof {
                    lemma_assoc_map_update(
                        old(self).entries@,
                        i as int,
                        self.entries@[i as int],
                    );
                    assert(self.entries@ =~= old(self).entries@.update(
                        i as int,
                        self.entries@[i as int],
                    ));
                }
                return Ok(rslt);
            }
            i = i + 1;
        }
        proof {
            lemma_assoc_map_dom(self.entries@, label@);
        }
        Err(UpdateError::UnknownDeck)
    }
}

/// The channel table: the on-air status the mixer last reported per channel
/// number.
pub struct ChannelMap {
    entries: Vec<(Channel, ChannelStatus)>,
}

impl View for ChannelMap {
    type V = Map<Channel, ChannelStatus>;

    closed spec fn view(&self) -> Map<Channel, ChannelStatus> {
        assoc_map(self.entries@)
    }
}

impl ChannelMap {
    /// No two entries share a channel number.
    pub closed spec fn wf(&self) -> bool {
        unique_keys(self.entries@)
    }

    /// An empty channel table.
    pub fn new() -> (chans: ChannelMap)
        ensures
            chans.wf(),
            chans@ == Map::<Channel, ChannelStatus>::empty(),
    {
        ChannelMap { entries: Vec::new() }
    }

    /// The status stored for channel `number`, if one was ever set.
    pub fn get(&self, number: Channel) -> (r: Option<&ChannelStatus>)
        requires
            self.wf(),
        ensures
            match r {
                Some(status) => self@.contains_key(number) && *status == self@[number],
                None => !self@.contains_key(number),
            },
    {
        let n = self.entries.len();
        let mut i: usize = 0;
        while i < n
            invariant
                n == self.entries@.len(),
                i <= n,
                self.wf(),
                forall|k: int| 0 <= k < i ==> self.entries@[k].0 != number,
            decreases n - i,
        {
            if self.entries[i].0 == number {
                proof {
                    lemma_assoc_map_index(self.entries@, i as int);
                }
                return Some(&self.entries[i].1);
            }
            i = i + 1;
        }
        proof {
            lemma_assoc_map_dom(self.entries@, number);
        }
        None
    }

    /// Replaces the whole status of channel `number` unconditionally; a
    /// channel change is always broadcast-worthy.
    pub fn set_channel(&mut self, number: Channel, status: ChannelStatus)
        requires
            old(self).wf(),
        ensures
            final(self).wf(),
            final(self)@ == old(self)@.insert(number, status),
    {
        let n = self.entries.len();
        let mut i: usize = 0;
        while i < n
            invariant
                n == self.entries@.len(),
                i <= n,
                self.wf(),
                self.entries@ == old(self).entries@,
                forall|k: int| 0 <= k < i ==> self.entries@[k].0 != number,
            decreases n - i,
        {
            if self.entries[i].0 == number {
                proof {
                    lemma_assoc_map_update(self.entries@, i as int, (number, status));
                }
                self.entries[i] = (number, status);
                return;
            }
            i = i + 1;
        }
        proof {
            lemma_assoc_map_push(self.entries@, (number, status));
        }
        self.entries.push((number, status));
    }
}

/// Loading a deck and then merging a delta leaves, under the deck's label,
/// exactly the loaded status with the delta's present fields overwritten:
/// every field the delta carries holds the delta's value, and every other
/// field still holds the loaded status's value.
pub proof fn lemma_load_then_update(
    decks: Map<Seq<char>, DeckStatus>,
    label: Seq<char>,
    s: DeckStatus,
    delta: DeckStatusUpdate,
)
    ensures
        ({
            let loaded = decks.insert(label, s);
            let after = loaded.insert(label, merged(loaded[label], delta));
            let stored = after[label];
            &&& stored == merged(s, delta)
            &&& stored.elapsed_time == match delta.elapsed_time {
                Some(v) => v,
                None => s.elapsed_time,
            }
            &&& stored.is_playing == match delta.is_playing {
                Some(v) => v,
                None => s.is_playing,
            }
            &&& stored.is_synced == match delta.is_synced {
                Some(v) => v,
                None => s.is_synced,
            }
            &&& stored.is_key_lock_on == match delta.is_key_lock_on {
                Some(v) => v,
                None => s.is_key_lock_on,
            }
            &&& stored.tempo == match delta.tempo {
                Some(v) => v,
                None => s.tempo,
            }
            &&& stored.resulting_key == match delta.resulting_key {
                Some(v) => v,
                None => s.resulting_key,
            }
            &&& stored.file_path == s.file_path
            &&& stored.title == s.title
            &&& stored.artist == s.artist
            &&& stored.album == s.album
            &&& stored.genre == s.genre
            &&& stored.comment == s.comment
            &&& stored.comment2 == s.comment2
            &&& stored.label == s.label
            &&& stored.mix == s.mix
            &&& stored.remixer == s.remixer
            &&& stored.key == s.key
            &&& stored.key_text == s.key_text
            &&& stored.grid_offset == s.grid_offset
            &&& stored.track_length == s.track_length
            &&& stored.next_cue_pos == s.next_cue_pos
            &&& stored.bpm == s.bpm
            &&& stored.deck == s.deck
        }),
{
}

/// Loading the same status twice leaves exactly the store that one load
/// leaves. Each load is nonetheless its own broadcast-worthy event: loads
/// are significant unconditionally, so the caller pushes a snapshot after
/// either one.
pub proof fn lemma_load_idempotent(
    decks: Map<Seq<char>, DeckStatus>,
    label: Seq<char>,
    s: DeckStatus,
)
    ensures
        decks.insert(label, s).insert(label, s) == decks.insert(label, s),
{
    assert(decks.insert(label, s).insert(label, s) =~= decks.insert(label, s));
}

} // verus!
