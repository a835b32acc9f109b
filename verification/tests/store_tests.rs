use mixhub::api::channel::ChannelStatus;
use mixhub::api::deck::{DeckStatus, DeckStatusUpdate};
use mixhub::api::master_clock::MasterClock;
use mixhub::store::{ChannelMap, DeckMap, UpdateError};

fn sample_status(title: &str, playing: bool) -> DeckStatus {
    DeckStatus {
        file_path: String::from("/music/track.flac"),
        title: String::from(title),
        artist: String::from("Artist"),
        album: String::from("Album"),
        genre: String::from("Genre"),
        comment: String::from("Comment"),
        comment2: String::from("Comment2"),
        label: String::from("Label"),
        mix: String::from("Mix"),
        remixer: String::from("Remixer"),
        key: String::from("9m"),
        key_text: String::from("B minor"),
        grid_offset: 0.25f32.to_bits(),
        track_length: 300.0f32.to_bits(),
        elapsed_time: 10.5f32.to_bits(),
        next_cue_pos: Some(42.0f32.to_bits()),
        bpm: 128.0f32.to_bits(),
        tempo: 1.0f32.to_bits(),
        resulting_key: String::from("9m"),
        is_playing: playing,
        is_synced: false,
        is_key_lock_on: false,
        deck: Some(String::from("A")),
    }
}

fn empty_delta() -> DeckStatusUpdate {
    DeckStatusUpdate {
        elapsed_time: None,
        next_cue_pos: None,
        is_playing: None,
        is_synced: None,
        is_key_lock_on: None,
        tempo: None,
        resulting_key: None,
    }
}

#[test]
fn load_then_update_overwrites_exactly_the_delta_fields() {
    let mut decks = DeckMap::new();
    let s = sample_status("Song", false);
    decks.load_deck(String::from("A"), s.clone());

    let delta = DeckStatusUpdate {
        elapsed_time: Some(99.5f32.to_bits()),
        is_playing: Some(true),
        resulting_key: Some(String::from("4d")),
        // carried on the wire but never merged into the status
        next_cue_pos: Some(7.0f32.to_bits()),
        ..empty_delta()
    };
    let significant = decks
        .update_deck(&String::from("A"), delta, false)
        .expect("deck was loaded");
    assert!(significant);

    let stored = decks.get(&String::from("A")).expect("deck present");
    // the delta's fields carry the delta's values
    assert_eq!(stored.elapsed_time, 99.5f32.to_bits());
    assert!(stored.is_playing);
    assert_eq!(stored.resulting_key, "4d");
    // every other field still carries the loaded value
    assert_eq!(stored.file_path, s.file_path);
    assert_eq!(stored.title, s.title);
    assert_eq!(stored.artist, s.artist);
    assert_eq!(stored.album, s.album);
    assert_eq!(stored.genre, s.genre);
    assert_eq!(stored.comment, s.comment);
    assert_eq!(stored.comment2, s.comment2);
    assert_eq!(stored.label, s.label);
    assert_eq!(stored.mix, s.mix);
    assert_eq!(stored.remixer, s.remixer);
    assert_eq!(stored.key, s.key);
    assert_eq!(stored.key_text, s.key_text);
    assert_eq!(stored.grid_offset, s.grid_offset);
    assert_eq!(stored.track_length, s.track_length);
    assert_eq!(stored.next_cue_pos, s.next_cue_pos);
    assert_eq!(stored.bpm, s.bpm);
    assert_eq!(stored.tempo, s.tempo);
    assert_eq!(stored.is_synced, s.is_synced);
    assert_eq!(stored.is_key_lock_on, s.is_key_lock_on);
    assert_eq!(stored.deck, s.deck);
}

#[test]
fn update_unknown_deck_is_a_rejected_no_op() {
    let mut decks = DeckMap::new();
    decks.load_deck(String::from("A"), sample_status("Song", true));

    let delta = DeckStatusUpdate {
        is_playing: Some(false),
        ..empty_delta()
    };
    let r = decks.update_deck(&String::from("B"), delta, true);
    assert_eq!(r, Err(UpdateError::UnknownDeck));
    // no entry was created, the existing entry is untouched
    assert!(decks.get(&String::from("B")).is_none());
    assert!(decks.get(&String::from("A")).expect("still there").is_playing);
}

#[test]
fn load_replaces_the_whole_entry() {
    let mut decks = DeckMap::new();
    decks.load_deck(String::from("A"), sample_status("First", true));
    decks.load_deck(String::from("A"), sample_status("Second", false));
    let stored = decks.get(&String::from("A")).expect("deck present");
    assert_eq!(stored.title, "Second");
    assert!(!stored.is_playing);
}

#[test]
fn load_twice_with_identical_status_is_idempotent() {
    let mut once = DeckMap::new();
    once.load_deck(String::from("A"), sample_status("Song", true));

    let mut twice = DeckMap::new();
    twice.load_deck(String::from("A"), sample_status("Song", true));
    twice.load_deck(String::from("A"), sample_status("Song", true));

    let a = once.get(&String::from("A")).expect("present");
    let b = twice.get(&String::from("A")).expect("present");
    assert_eq!(a.title, b.title);
    assert_eq!(a.is_playing, b.is_playing);
    assert_eq!(a.elapsed_time, b.elapsed_time);
    assert_eq!(a.deck, b.deck);
}

#[test]
fn playing_delta_is_always_significant() {
    let mut decks = DeckMap::new();
    decks.load_deck(String::from("A"), sample_status("Song", false));
    let delta = DeckStatusUpdate {
        is_playing: Some(true),
        ..empty_delta()
    };
    let significant = decks
        .update_deck(&String::from("A"), clone_delta(&delta), false)
        .expect("deck was loaded");
    assert!(significant);
    let significant_verbose = decks
        .update_deck(&String::from("A"), delta, true)
        .expect("deck was loaded");
    assert!(significant_verbose);
}

#[test]
fn elapsed_time_alone_is_significant_only_when_verbose() {
    let mut decks = DeckMap::new();
    decks.load_deck(String::from("A"), sample_status("Song", true));

    let quiet = decks
        .update_deck(
            &String::from("A"),
            DeckStatusUpdate {
                elapsed_time: Some(12.3f32.to_bits()),
                ..empty_delta()
            },
            false,
        )
        .expect("deck was loaded");
    assert!(!quiet);
    // the field was still updated
    assert_eq!(
        decks.get(&String::from("A")).expect("present").elapsed_time,
        12.3f32.to_bits()
    );

    let verbose = decks
        .update_deck(
            &String::from("A"),
            DeckStatusUpdate {
                elapsed_time: Some(13.0f32.to_bits()),
                ..empty_delta()
            },
            true,
        )
        .expect("deck was loaded");
    assert!(verbose);
}

#[test]
fn tempo_alone_is_significant_only_when_verbose() {
    let mut decks = DeckMap::new();
    decks.load_deck(String::from("A"), sample_status("Song", true));
    let quiet = decks
        .update_deck(
            &String::from("A"),
            DeckStatusUpdate {
                tempo: Some(1.02f32.to_bits()),
                ..empty_delta()
            },
            false,
        )
        .expect("deck was loaded");
    assert!(!quiet);
    assert_eq!(
        decks.get(&String::from("A")).expect("present").tempo,
        1.02f32.to_bits()
    );
    let verbose = decks
        .update_deck(
            &String::from("A"),
            DeckStatusUpdate {
                tempo: Some(1.05f32.to_bits()),
                ..empty_delta()
            },
            true,
        )
        .expect("deck was loaded");
    assert!(verbose);
}

#[test]
fn resulting_key_alone_is_never_significant() {
    let mut decks = DeckMap::new();
    decks.load_deck(String::from("A"), sample_status("Song", true));
    let significant = decks
        .update_deck(
            &String::from("A"),
            DeckStatusUpdate {
                resulting_key: Some(String::from("5d")),
                ..empty_delta()
            },
            true,
        )
        .expect("deck was loaded");
    assert!(!significant);
    assert_eq!(
        decks.get(&String::from("A")).expect("present").resulting_key,
        "5d"
    );
}

#[test]
fn sync_and_key_lock_deltas_are_significant() {
    let mut decks = DeckMap::new();
    decks.load_deck(String::from("A"), sample_status("Song", true));
    let sync = decks
        .update_deck(
            &String::from("A"),
            DeckStatusUpdate {
                is_synced: Some(true),
                ..empty_delta()
            },
            false,
        )
        .expect("deck was loaded");
    assert!(sync);
    let lock = decks
        .update_deck(
            &String::from("A"),
            DeckStatusUpdate {
                is_key_lock_on: Some(true),
                ..empty_delta()
            },
            false,
        )
        .expect("deck was loaded");
    assert!(lock);
}

#[test]
fn set_clock_replaces_the_whole_value() {
    let mut clock = MasterClock::new();
    clock.set(MasterClock {
        deck: Some(String::from("A")),
        bpm: 120.0f32.to_bits(),
    });
    clock.set(MasterClock {
        deck: Some(String::from("B")),
        bpm: 128.0f32.to_bits(),
    });
    assert_eq!(clock.deck, Some(String::from("B")));
    assert_eq!(clock.bpm, 128.0f32.to_bits());

    // a clock without a master deck also replaces a prior deck wholesale
    clock.set(MasterClock {
        deck: None,
        bpm: 90.0f32.to_bits(),
    });
    assert_eq!(clock.deck, None);
    assert_eq!(clock.bpm, 90.0f32.to_bits());
}

#[test]
fn channel_table_replaces_per_number() {
    let mut chans = ChannelMap::new();
    chans.set_channel(1, ChannelStatus { is_on_air: true });
    chans.set_channel(2, ChannelStatus { is_on_air: true });
    chans.set_channel(1, ChannelStatus { is_on_air: false });
    assert!(!chans.get(1).expect("set").is_on_air);
    assert!(chans.get(2).expect("set").is_on_air);
    assert!(chans.get(3).is_none());
}

fn clone_delta(delta: &DeckStatusUpdate) -> DeckStatusUpdate {
    DeckStatusUpdate {
        elapsed_time: delta.elapsed_time,
        next_cue_pos: delta.next_cue_pos,
        is_playing: delta.is_playing,
        is_synced: delta.is_synced,
        is_key_lock_on: delta.is_key_lock_on,
        tempo: delta.tempo,
        resulting_key: delta.resulting_key.clone(),
    }
}
