use mixhub::api::channel::ChannelStatus;
use mixhub::api::deck::DeckStatus;
use mixhub::api::master_clock::MasterClock;
use mixhub::logic::get_songs_on_air;
use mixhub::responses::{BpmResponse, NowPlayingResponse};
use mixhub::settings::MixingSettings;
use mixhub::store::{ChannelMap, DeckMap};

fn status(title: &str, playing: bool) -> DeckStatus {
    DeckStatus {
        file_path: String::from("/music/track.mp3"),
        title: String::from(title),
        artist: String::new(),
        album: String::new(),
        genre: String::new(),
        comment: String::new(),
        comment2: String::new(),
        label: String::new(),
        mix: String::new(),
        remixer: String::new(),
        key: String::new(),
        key_text: String::new(),
        grid_offset: 0,
        track_length: 0,
        elapsed_time: 0,
        next_cue_pos: None,
        bpm: 0,
        tempo: 0,
        resulting_key: String::new(),
        is_playing: playing,
        is_synced: false,
        is_key_lock_on: false,
        deck: None,
    }
}

fn mixing(deck_list: &[&str], routing: &[(&str, u8)]) -> MixingSettings {
    MixingSettings {
        deck_list: deck_list.iter().map(|d| String::from(*d)).collect(),
        deck_channel_map: routing
            .iter()
            .map(|(d, c)| (String::from(*d), *c))
            .collect(),
        default_cover: String::from("cover.png"),
    }
}

#[test]
fn compose_keeps_only_playing_decks_on_live_channels() {
    let mut decks = DeckMap::new();
    decks.load_deck(String::from("A"), status("Song A", true));
    decks.load_deck(String::from("B"), status("Song B", false));
    let mut chans = ChannelMap::new();
    chans.set_channel(1, ChannelStatus { is_on_air: true });
    chans.set_channel(2, ChannelStatus { is_on_air: true });
    let mixing = mixing(&["A", "B"], &[("A", 1), ("B", 2)]);

    let songs = get_songs_on_air(&decks, &chans, &mixing);
    assert_eq!(songs.len(), 1);
    assert_eq!(songs[0].title, "Song A");
}

#[test]
fn compose_order_is_the_configured_deck_list_order() {
    let mut decks = DeckMap::new();
    decks.load_deck(String::from("A"), status("Song A", true));
    decks.load_deck(String::from("B"), status("Song B", true));
    decks.load_deck(String::from("C"), status("Song C", true));
    let mut chans = ChannelMap::new();
    chans.set_channel(1, ChannelStatus { is_on_air: true });
    chans.set_channel(2, ChannelStatus { is_on_air: true });
    chans.set_channel(3, ChannelStatus { is_on_air: true });
    let mixing = mixing(&["C", "A", "B"], &[("A", 1), ("B", 2), ("C", 3)]);

    let songs = get_songs_on_air(&decks, &chans, &mixing);
    let titles: Vec<&str> = songs.iter().map(|s| s.title.as_str()).collect();
    assert_eq!(titles, vec!["Song C", "Song A", "Song B"]);
}

#[test]
fn compose_excludes_each_failing_condition_silently() {
    let mut decks = DeckMap::new();
    decks.load_deck(String::from("A"), status("Unmapped", true));
    decks.load_deck(String::from("B"), status("No channel status", true));
    decks.load_deck(String::from("C"), status("Off air", true));
    decks.load_deck(String::from("E"), status("Playing", true));
    // "D" is mapped and live but was never loaded
    let mut chans = ChannelMap::new();
    chans.set_channel(3, ChannelStatus { is_on_air: false });
    chans.set_channel(4, ChannelStatus { is_on_air: true });
    chans.set_channel(5, ChannelStatus { is_on_air: true });
    let mixing = mixing(
        &["A", "B", "C", "D", "E"],
        &[("B", 2), ("C", 3), ("D", 4), ("E", 5)],
    );

    let songs = get_songs_on_air(&decks, &chans, &mixing);
    assert_eq!(songs.len(), 1);
    assert_eq!(songs[0].title, "Playing");
}

#[test]
fn compose_with_empty_deck_list_is_empty() {
    let decks = DeckMap::new();
    let chans = ChannelMap::new();
    let mixing = mixing(&[], &[]);
    let songs = get_songs_on_air(&decks, &chans, &mixing);
    assert!(songs.is_empty());
}

#[test]
fn snapshot_carries_clock_bpm_and_tick_reason() {
    let mut decks = DeckMap::new();
    decks.load_deck(String::from("A"), status("Song A", true));
    let mut chans = ChannelMap::new();
    chans.set_channel(1, ChannelStatus { is_on_air: true });
    let mixing = mixing(&["A"], &[("A", 1)]);
    let clock = MasterClock {
        deck: Some(String::from("A")),
        bpm: 174.0f32.to_bits(),
    };

    let snap = NowPlayingResponse::create(&clock, &decks, &chans, &mixing);
    assert_eq!(snap.bpm, 174.0f32.to_bits());
    assert_eq!(snap.songs_on_air.len(), 1);
    assert_eq!(snap.ticked_deck, None);

    let ticked = NowPlayingResponse::tick(&clock, &decks, &chans, &mixing, String::from("A"));
    assert_eq!(ticked.ticked_deck, Some(String::from("A")));
    assert_eq!(ticked.songs_on_air.len(), 1);
}

#[test]
fn bpm_response_mirrors_the_clock() {
    let clock = MasterClock {
        deck: Some(String::from("B")),
        bpm: 140.0f32.to_bits(),
    };
    let resp = BpmResponse::from(&clock);
    assert_eq!(resp.bpm, 140.0f32.to_bits());
    assert_eq!(resp.master_deck, Some(String::from("B")));
}
