//! Status of a playback deck and the sparse update deltas merged into it.

use vstd::prelude::*;
use crate::api::Deck;

verus! {

/// Describes a deck status.
///
/// Numeric transport fields (grid offset, track length, elapsed time, cue
/// position, BPM, tempo) are carried as the raw bit patterns of the source's
/// values; the store copies them verbatim and never interprets them.
pub struct DeckStatus {
    /// Currently loaded audio file path
    pub file_path: String,
    /// Track title
    pub title: String,
    /// Track artist
    pub artist: String,
    /// Track album
    pub album: String,
    /// Track genre
    pub genre: String,
    /// Track comment
    pub comment: String,
    /// Secondary track comment
    pub comment2: String,
    /// Track releaser label
    pub label: String,
    /// Mix type of track
    pub mix: String,
    /// Remixer name
    pub remixer: String,
    /// Key in traktor format, such as "9m" or "4d"
    pub key: String,
    /// User-readable key name
    pub key_text: String,
    /// Grid offset from start of track, as an opaque bit pattern
    pub grid_offset: u32,
    /// Length of track, as an opaque bit pattern
    pub track_length: u32,
    /// Time elapsed into the track, as an opaque bit pattern
    pub elapsed_time: u32,
    /// Next cue position, as an opaque bit pattern
    pub next_cue_pos: Option<u32>,
    /// BPM, as an opaque bit pattern
    pub bpm: u32,
    /// Tempo, as an opaque bit pattern
    pub tempo: u32,
    /// Key of track after the key adjustment on the mixer is applied
    pub resulting_key: String,
    /// Whether the track is playing
    pub is_playing: bool,
    /// Whether the track is synced
    pub is_synced: bool,
    /// Whether the track is keylocked
    pub is_key_lock_on: bool,
    /// Deck letter the track is playing on
    pub deck: Option<Deck>,
}

/// Delta object for DeckStatus: fields that are present are merged into an
/// existing status, absent fields leave it untouched.
pub struct DeckStatusUpdate {
    /// Time elapsed into the track, as an opaque bit pattern
    pub elapsed_time: Option<u32>,
    /// Next cue position, as an opaque bit pattern (carried on the wire but
    /// never merged into a status)
    pub next_cue_pos: Option<u32>,
    /// Whether the track is playing
    pub is_playing: Option<bool>,
    /// Whether the track is synced
    pub is_synced: Option<bool>,
    /// Whether the track is keylocked
    pub is_key_lock_on: Option<bool>,
    /// Tempo, as an opaque bit pattern
    pub tempo: Option<u32>,
    /// Key of track after the key adjustment on the mixer is applied
    pub resulting_key: Option<String>,
}

impl Clone for DeckStatus {
    /// A clone carries exactly the same status.
    fn clone(&self) -> (res: Self)
        ensures
            res == *self,
    {
        DeckStatus {
            file_path: self.file_path.clone(),
            title: self.title.clone(),
            artist: self.artist.clone(),
            album: self.album.clone(),
            genre: self.genre.clone(),
            comment: self.comment.clone(),
            comment2: self.comment2.clone(),
            label: self.label.clone(),
            mix: self.mix.clone(),
            remixer: self.remixer.clone(),
            key: self.key.clone(),
            key_text: self.key_text.clone(),
            grid_offset: self.grid_offset,
            track_length: self.track_length,
            elapsed_time: self.elapsed_time,
            next_cue_pos: self.next_cue_pos,
            bpm: self.bpm,
            tempo: self.tempo,
            resulting_key: self.resulting_key.clone(),
            is_playing: self.is_playing,
            is_synced: self.is_synced,
            is_key_lock_on: self.is_key_lock_on,
            deck: match &self.deck {
                Some(label) => Some(label.clone()),
                None => None,
            },
        }
    }
}

/// The status that results from merging a delta into `s`: every field the
/// delta carries is overwritten with the delta's value, every other field is
/// left exactly as it was.
pub open spec fn merged(s: DeckStatus, delta: DeckStatusUpdate) -> DeckStatus {
    DeckStatus {
        elapsed_time: match delta.elapsed_time {
            Some(time) => time,
            None => s.elapsed_time,
        },
        is_playing: match delta.is_playing {
            Some(playing) => playing,
            None => s.is_playing,
        },
        is_synced: match delta.is_synced {
            Some(sync) => sync,
            None => s.is_synced,
        },
        is_key_lock_on: match delta.is_key_lock_on {
            Some(lock) => lock,
            None => s.is_key_lock_on,
        },
        tempo: match delta.tempo {
            Some(tempo) => tempo,
            None => s.tempo,
        },
        resulting_key: match delta.resulting_key {
            Some(res_key) => res_key,
            None => s.resulting_key,
        },
        ..s
    }
}

/// Whether merging `delta` warrants pushing a fresh snapshot to subscribers:
/// the behaviour-affecting flags (playing, synced, key lock) always do; the
/// high-frequency fields (elapsed time, tempo) only when verbose event
/// emission is switched on; the resulting key alone never does.
pub open spec fn significant(delta: DeckStatusUpdate, more_events: bool) -> bool {
    ||| delta.is_playing is Some
    ||| delta.is_synced is Some
    ||| delta.is_key_lock_on is Some
    ||| ((delta.elapsed_time is Some || delta.tempo is Some) && more_events)
}

impl DeckStatus {
    /// Update the status entry from a delta object, returns whether the
    /// change affects the Now Playing status. `more_events` is the verbose
    /// event emission flag from the configuration.
    pub fn update(&mut self, delta: DeckStatusUpdate, more_events: bool) -> (rslt: bool)
        ensures
            *final(self) == merged(*old(self), delta),
            rslt == significant(delta, more_events),
    {
        let mut rslt = false;
        if let Some(time) = delta.elapsed_time {
            self.elapsed_time = time;
            rslt = rslt || more_events;
        }
        if let Some(playing) = delta.is_playing {
            self.is_playing = playing;
            rslt = true;
        }
        if let Some(sync) = delta.is_synced {
            self.is_synced = sync;
            rslt = true;
        }
        if let Some(lock) = delta.is_key_lock_on {
            self.is_key_lock_on = lock;
            rslt = true;
        }
        if let Some(tempo) = delta.tempo {
            self.tempo = tempo;
            rslt = rslt || more_events;
        }
        if let Some(res_key) = delta.resulting_key {
            self.resulting_key = res_key;
        }
        rslt
    }
}

/// A delta that carries the playing flag is significant no matter how the
/// verbose-events flag is set; one that carries only the elapsed time is
/// significant exactly when that flag is on.
pub proof fn lemma_significance(delta: DeckStatusUpdate, more_events: bool)
    ensures
        delta.is_playing is Some ==> significant(delta, more_events),
        (delta.is_playing is None && delta.is_synced is None && delta.is_key_lock_on is None
            && delta.tempo is None && delta.elapsed_time is Some) ==> (significant(
            delta,
            more_events,
        ) == more_events),
{
}

} // verus!
