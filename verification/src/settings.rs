//! Server configuration: transport settings, the deck routing table, and the
//! reader for the settings text.
//!
//! The settings text is a sectioned key-value format: blank lines and lines
//! starting with `#` are skipped; `[http]`, `[mixing]` and
//! `[mixing.deck_channel_map]` open sections; every other line is
//! `key = value` with a quoted string, a decimal integer, a boolean, or a
//! list of quoted strings as the value. `parse_settings` is the text's
//! meaning; `ServerSettings::read` computes it.

use vstd::prelude::*;
use crate::api::{Channel, Deck};
use crate::assoc::{assoc_map, lemma_assoc_map_dom, lemma_assoc_map_index, unique_keys};
use crate::settings::lex::{ascii_len, bool_value, byte_at, find_char, int_value, lemma_upto,
    list_value, parse_bool, parse_int, parse_string, parse_string_list, scan_to, streq,
    string_value, trim, trim_str};

pub mod lex;

verus! {

/// HTTP part settings
pub struct HttpSettings {
    /// IP to bind to
    pub bind: String,
    /// Port to bind to
    pub port: u16,
    /// Websocket port
    pub ws_port: u16,
    /// Webroot to throw unmatched requests at
    pub webroot: String,
    /// Send verbose events to websocket or not
    pub more_events: bool,
}

/// Logic part settings
pub struct MixingSettings {
    /// List of decks to consider for Now Playing, in display order
    pub deck_list: Vec<Deck>,
    /// Map of deck letters to channel numbers, one entry per deck letter
    pub deck_channel_map: Vec<(Deck, Channel)>,
    /// Default cover art image path
    pub default_cover: String,
}

impl MixingSettings {
    /// No two routing entries share a deck letter.
    pub open spec fn wf(&self) -> bool {
        unique_keys(self.deck_channel_map@)
    }

    /// The routing table as a map from deck letter to channel number.
    pub open spec fn routing(&self) -> Map<Seq<char>, Channel> {
        assoc_map(self.deck_channel_map@)
    }

    /// The channel that `label` is routed to, if the table maps it.
    pub fn channel_of(&self, label: &Deck) -> (r: Option<Channel>)
        requires
            self.wf(),
        ensures
            match r {
                Some(chan) => self.routing().contains_key(label@) && chan == self.routing().index(
                    label@,
                ),
                None => !self.routing().contains_key(label@),
            },
    {
        let n = self.deck_channel_map.len();
        let mut i: usize = 0;
        while i < n
            invariant
                n == self.deck_channel_map@.len(),
                i <= n,
                self.wf(),
                forall|k: int| 0 <= k < i ==> self.deck_channel_map@[k].0@ != label@,
            decreases n - i,
        {
            if self.deck_channel_map[i].0 == *label {
                proof {
                    lemma_assoc_map_index(self.deck_channel_map@, i as int);
                }
                return Some(self.deck_channel_map[i].1);
            }
            i = i + 1;
        }
        proof {
            lemma_assoc_map_dom(self.deck_channel_map@, label@);
        }
        None
    }
}

/// Common settings
pub struct ServerSettings {
    pub http: HttpSettings,
    pub mixing: MixingSettings,
    pub log_level: Option<String>,
}

/// Why a settings text was rejected.
#[derive(Clone, Copy, Debug, PartialEq, Eq, Structural)]
pub enum SettingsError {
    /// The text holds a character outside ASCII.
    NotAscii,
    /// A line is neither blank, a comment, a section header, nor a
    /// key-value pair.
    BadLine,
    /// A section header names no section of the settings.
    UnknownSection,
    /// A key is not a setting of the section it stands in.
    UnknownKey,
    /// A value does not have the form its setting asks for.
    BadValue,
    /// A setting is given twice.
    DuplicateKey,
    /// A required setting is missing.
    MissingKey,
}

/// The section that a line of the settings text stands in.
#[derive(Clone, Copy, Debug, PartialEq, Eq, Structural)]
pub enum Section {
    /// Before any section header
    Top,
    /// Inside `[http]`
    Http,
    /// Inside `[mixing]`
    Mixing,
    /// Inside `[mixing.deck_channel_map]`
    DeckChannelMap,
}

/// Mathematical shape of `HttpSettings`.
pub ghost struct HttpModel {
    pub bind: Seq<char>,
    pub port: u16,
    pub ws_port: u16,
    pub webroot: Seq<char>,
    pub more_events: bool,
}

/// Mathematical shape of `MixingSettings`.
pub ghost struct MixingModel {
    pub deck_list: Seq<Seq<char>>,
    pub deck_channel_map: Seq<(Seq<char>, u8)>,
    pub default_cover: Seq<char>,
}

/// Mathematical shape of `ServerSettings`.
pub ghost struct SettingsModel {
    pub http: HttpModel,
    pub mixing: MixingModel,
    pub log_level: Option<Seq<char>>,
}

pub open spec fn view_opt_string(o: Option<String>) -> Option<Seq<char>> {
    match o {
        Some(s) => Some(s@),
        None => None,
    }
}

impl View for HttpSettings {
    type V = HttpModel;

    open spec fn view(&self) -> HttpModel {
        HttpModel {
            bind: self.bind@,
            port: self.port,
            ws_port: self.ws_port,
            webroot: self.webroot@,
            more_events: self.more_events,
        }
    }
}

impl View for MixingSettings {
    type V = MixingModel;

    open spec fn view(&self) -> MixingModel {
        MixingModel {
            deck_list: self.deck_list@.map_values(|d: Deck| d@),
            deck_channel_map: self.deck_channel_map@.map_values(|p: (Deck, Channel)| (p.0@, p.1)),
            default_cover: self.default_cover@,
        }
    }
}

impl View for ServerSettings {
    type V = SettingsModel;

    open spec fn view(&self) -> SettingsModel {
        SettingsModel {
            http: self.http@,
            mixing: self.mixing@,
            log_level: view_opt_string(self.log_level),
        }
    }
}

/// The state the reader folds over the lines: the open section and every
/// setting seen so far.
pub ghost struct BuilderModel {
    pub section: Section,
    pub bind: Option<Seq<char>>,
    pub port: Option<u16>,
    pub ws_port: Option<u16>,
    pub webroot: Option<Seq<char>>,
    pub more_events: Option<bool>,
    pub deck_list: Option<Seq<Seq<char>>>,
    pub default_cover: Option<Seq<char>>,
    pub log_level: Option<Seq<char>>,
    pub deck_channel_map: Seq<(Seq<char>, u8)>,
}

/// The state before any line: no section open, nothing set.
pub open spec fn init_builder() -> BuilderModel {
    BuilderModel {
        section: Section::Top,
        bind: None,
        port: None,
        ws_port: None,
        webroot: None,
        more_events: None,
        deck_list: None,
        default_cover: None,
        log_level: None,
        deck_channel_map: Seq::empty(),
    }
}

/// A section header: the name between the brackets must be a known section.
pub open spec fn apply_section(t: Seq<char>, b: BuilderModel) -> Result<
    BuilderModel,
    SettingsError,
> {
    if t.len() < 2 || t.last() != ']' {
        Err(SettingsError::BadLine)
    } else {
        let name = t.subrange(1, t.len() - 1);
        if name == "http"@ {
            Ok(BuilderModel { section: Section::Http, ..b })
        } else if name == "mixing"@ {
            Ok(BuilderModel { section: Section::Mixing, ..b })
        } else if name == "mixing.deck_channel_map"@ {
            Ok(BuilderModel { section: Section::DeckChannelMap, ..b })
        } else {
            Err(SettingsError::UnknownSection)
        }
    }
}

/// A key-value line before any section header: only `log_level` stands here.
pub open spec fn apply_top(key: Seq<char>, value: Seq<char>, b: BuilderModel) -> Result<
    BuilderModel,
    SettingsError,
> {
    if key == "log_level"@ {
        if b.log_level is Some {
            Err(SettingsError::DuplicateKey)
        } else {
            match string_value(value) {
                Ok(s) => Ok(BuilderModel { log_level: Some(s), ..b }),
                Err(e) => Err(e),
            }
        }
    } else {
        Err(SettingsError::UnknownKey)
    }
}

/// A key-value line inside `[http]`.
pub open spec fn apply_http(key: Seq<char>, value: Seq<char>, b: BuilderModel) -> Result<
    BuilderModel,
    SettingsError,
> {
    if key == "bind"@ {
        if b.bind is Some {
            Err(SettingsError::DuplicateKey)
        } else {
            match string_value(value) {
                Ok(s) => Ok(BuilderModel { bind: Some(s), ..b }),
                Err(e) => Err(e),
            }
        }
    } else if key == "port"@ {
        if b.port is Some {
            Err(SettingsError::DuplicateKey)
        } else {
            match int_value(value, 65535) {
                Ok(x) => Ok(BuilderModel { port: Some(x as u16), ..b }),
                Err(e) => Err(e),
            }
        }
    } else if key == "ws_port"@ {
        if b.ws_port is Some {
            Err(SettingsError::DuplicateKey)
        } else {
            match int_value(value, 65535) {
                Ok(x) => Ok(BuilderModel { ws_port: Some(x as u16), ..b }),
                Err(e) => Err(e),
            }
        }
    } else if key == "webroot"@ {
        if b.webroot is Some {
            Err(SettingsError::DuplicateKey)
        } else {
            match string_value(value) {
                Ok(s) => Ok(BuilderModel { webroot: Some(s), ..b }),
                Err(e) => Err(e),
            }
        }
    } else if key == "more_events"@ {
        if b.more_events is Some {
            Err(SettingsError::DuplicateKey)
        } else {
            match bool_value(value) {
                Ok(x) => Ok(BuilderModel { more_events: Some(x), ..b }),
                Err(e) => Err(e),
            }
        }
    } else {
        Err(SettingsError::UnknownKey)
    }
}

/// A key-value line inside `[mixing]`.
pub open spec fn apply_mixing(key: Seq<char>, value: Seq<char>, b: BuilderModel) -> Result<
    BuilderModel,
    SettingsError,
> {
    if key == "deck_list"@ {
        if b.deck_list is Some {
            Err(SettingsError::DuplicateKey)
        } else {
            match list_value(value) {
                Ok(items) => Ok(BuilderModel { deck_list: Some(items), ..b }),
                Err(e) => Err(e),
            }
        }
    } else if key == "default_cover"@ {
        if b.default_cover is Some {
            Err(SettingsError::DuplicateKey)
        } else {
            match string_value(value) {
                Ok(s) => Ok(BuilderModel { default_cover: Some(s), ..b }),
                Err(e) => Err(e),
            }
        }
    } else {
        Err(SettingsError::UnknownKey)
    }
}

/// A key-value line inside `[mixing.deck_channel_map]`: the key is a deck
/// letter, the value its channel number; a deck letter may be routed once.
pub open spec fn apply_map_entry(key: Seq<char>, value: Seq<char>, b: BuilderModel) -> Result<
    BuilderModel,
    SettingsError,
> {
    match int_value(value, 255) {
        Err(e) => Err(e),
        Ok(x) => {
            if exists|i: int| 0 <= i < b.deck_channel_map.len() && b.deck_channel_map[i].0
                == key {
                Err(SettingsError::DuplicateKey)
            } else {
                Ok(
                    BuilderModel {
                        deck_channel_map: b.deck_channel_map.push((key, x as u8)),
                        ..b
                    },
                )
            }
        },
    }
}

/// A key-value line: the first `=` separates key from value; both are
/// trimmed; the key goes to whichever section is open.
pub open spec fn apply_key_value(t: Seq<char>, b: BuilderModel) -> Result<
    BuilderModel,
    SettingsError,
> {
    let e = scan_to(t, 0, '=');
    if e >= t.len() {
        Err(SettingsError::BadLine)
    } else {
        let key = trim(t.subrange(0, e));
        let value = trim(t.subrange(e + 1, t.len() as int));
        if key.len() == 0 {
            Err(SettingsError::BadLine)
        } else {
            match b.section {
                Section::Top => apply_top(key, value, b),
                Section::Http => apply_http(key, value, b),
                Section::Mixing => apply_mixing(key, value, b),
                Section::DeckChannelMap => apply_map_entry(key, value, b),
            }
        }
    }
}

/// One line of the settings text: blank lines and comments change nothing;
/// a bracket opens a section header; anything else is a key-value pair.
pub open spec fn apply_line(line: Seq<char>, b: BuilderModel) -> Result<
    BuilderModel,
    SettingsError,
> {
    let t = trim(line);
    if t.len() == 0 {
        Ok(b)
    } else if t[0] == '#' {
        Ok(b)
    } else if t[0] == '[' {
        apply_section(t, b)
    } else {
        apply_key_value(t, b)
    }
}

/// Folds `apply_line` over the lines of `text` from position `i` on.
pub open spec fn parse_from(text: Seq<char>, i: int, b: BuilderModel) -> Result<
    BuilderModel,
    SettingsError,
>
    decreases text.len() - i
        when 0 <= i <= text.len()
{
    if i >= text.len() {
        Ok(b)
    } else {
        let j = scan_to(text, i, '\n');
        match apply_line(text.subrange(i, j), b) {
            Err(e) => Err(e),
            Ok(b2) => parse_from(text, if j < text.len() { j + 1 } else { j }, b2),
        }
    }
}

/// The settings that the folded state denotes: every setting of the two
/// sections is required, `log_level` is optional, the routing table is
/// whatever entries were given.
pub open spec fn finish_builder(b: BuilderModel) -> Result<SettingsModel, SettingsError> {
    if b.bind is None || b.port is None || b.ws_port is None || b.webroot is None
        || b.more_events is None || b.deck_list is None || b.default_cover is None {
        Err(SettingsError::MissingKey)
    } else {
        Ok(
            SettingsModel {
                http: HttpModel {
                    bind: b.bind->0,
                    port: b.port->0,
                    ws_port: b.ws_port->0,
                    webroot: b.webroot->0,
                    more_events: b.more_events->0,
                },
                mixing: MixingModel {
                    deck_list: b.deck_list->0,
                    deck_channel_map: b.deck_channel_map,
                    default_cover: b.default_cover->0,
                },
                log_level: b.log_level,
            },
        )
    }
}

/// What a settings text means: the fold of its lines, finished; text that is
/// not ASCII is rejected outright.
pub open spec fn parse_settings(text: Seq<char>) -> Result<SettingsModel, SettingsError> {
    if !vstd::utf8::is_ascii_chars(text) {
        Err(SettingsError::NotAscii)
    } else {
        match parse_from(text, 0, init_builder()) {
            Ok(b) => finish_builder(b),
            Err(e) => Err(e),
        }
    }
}

/// The reader's working state.
struct SettingsBuilder {
    section: Section,
    bind: Option<String>,
    port: Option<u16>,
    ws_port: Option<u16>,
    webroot: Option<String>,
    more_events: Option<bool>,
    deck_list: Option<Vec<Deck>>,
    default_cover: Option<String>,
    log_level: Option<String>,
    deck_channel_map: Vec<(Deck, Channel)>,
}

impl View for SettingsBuilder {
    type V = BuilderModel;

    closed spec fn view(&self) -> BuilderModel {
        BuilderModel {
            section: self.section,
            bind: view_opt_string(self.bind),
            port: self.port,
            ws_port: self.ws_port,
            webroot: view_opt_string(self.webroot),
            more_events: self.more_events,
            deck_list: match self.deck_list {
                Some(items) => Some(items@.map_values(|d: Deck| d@)),
                None => None,
            },
            default_cover: view_opt_string(self.default_cover),
            log_level: view_opt_string(self.log_level),
            deck_channel_map: self.deck_channel_map@.map_values(
                |p: (Deck, Channel)| (p.0@, p.1),
            ),
        }
    }
}

impl SettingsBuilder {
    spec fn wf(&self) -> bool {
        unique_keys(self.deck_channel_map@)
    }

    fn new() -> (b: SettingsBuilder)
        ensures
            b.wf(),
            b@ == init_builder(),
    {
        let b = SettingsBuilder {
            section: Section::Top,
            bind: None,
            port: None,
            ws_port: None,
            webroot: None,
            more_events: None,
            deck_list: None,
            default_cover: None,
            log_level: None,
            deck_channel_map: Vec::new(),
        };
        proof {
            assert(b@.deck_channel_map =~= init_builder().deck_channel_map);
        }
        b
    }

    /// Whether some routing entry already carries `key`.
    fn has_map_entry(&self, key: &Deck) -> (r: bool)
        ensures
            r == exists|i: int|
                0 <= i < self@.deck_channel_map.len() && self@.deck_channel_map[i].0 == key@,
    {
        let n = self.deck_channel_map.len();
        let mut i: usize = 0;
        while i < n
            invariant
                n == self.deck_channel_map@.len(),
                i <= n,
                forall|k: int| 0 <= k < i ==> self@.deck_channel_map[k].0 != key@,
            decreases n - i,
        {
            if self.deck_channel_map[i].0 == *key {
                assert(self@.deck_channel_map[i as int].0 == key@);
                return true;
            }
            i = i + 1;
        }
        false
    }

    /// Applies one line of the settings text to the state.
    fn apply(&mut self, line: &str) -> (r: Result<(), SettingsError>)
        requires
            old(self).wf(),
            line.is_ascii(),
        ensures
            final(self).wf(),
            match apply_line(line@, old(self)@) {
                Ok(b2) => r is Ok && final(self)@ == b2,
                Err(e) => r == Err::<(), SettingsError>(e) && *final(self) == *old(self),
            },
    {
        let t = trim_str(line);
        let n = ascii_len(t);
        if n == 0 {
            return Ok(());
        }
        let first = byte_at(t, 0);
        proof {
            assert('#' as u8 == 35 && '[' as u8 == 91 && ']' as u8 == 93 && '=' as u8 == 61);
        }
        if first == 35 {
            return Ok(());
        }
        if first == 91 {
            if n < 2 {
                return Err(SettingsError::BadLine);
            }
            let last = byte_at(t, n - 1);
            if last != 93 {
                return Err(SettingsError::BadLine);
            }
            let name = t.substring_ascii(1, n - 1);
            if streq(name, "http") {
                self.section = Section::Http;
                return Ok(());
            }
            if streq(name, "mixing") {
                self.section = Section::Mixing;
                return Ok(());
            }
            if streq(name, "mixing.deck_channel_map") {
                self.section = Section::DeckChannelMap;
                return Ok(());
            }
            return Err(SettingsError::UnknownSection);
        }
        let e = find_char(t, 0, 61);
        proof {
            lemma_upto(t@.skip(0), '=');
            assert(t@.skip(0) =~= t@);
            assert(e as int == scan_to(t@, 0, '='));
        }
        if e == n {
            return Err(SettingsError::BadLine);
        }
        let key_piece = t.substring_ascii(0, e);
        let key = trim_str(key_piece);
        let value_piece = t.substring_ascii(e + 1, n);
        let value = trim_str(value_piece);
        if ascii_len(key) == 0 {
            return Err(SettingsError::BadLine);
        }
        match self.section {
            Section::Top => {
                if streq(key, "log_level") {
                    if self.log_level.is_some() {
                        return Err(SettingsError::DuplicateKey);
                    }
                    match parse_string(value) {
                        Ok(s) => {
                            self.log_level = Some(s);
                            Ok(())
                        },
                        Err(err) => Err(err),
                    }
                } else {
                    Err(SettingsError::UnknownKey)
                }
            },
            Section::Http => {
                if streq(key, "bind") {
                    if self.bind.is_some() {
                        return Err(SettingsError::DuplicateKey);
                    }
                    match parse_string(value) {
                        Ok(s) => {
                            self.bind = Some(s);
                            Ok(())
                        },
                        Err(err) => Err(err),
                    }
                } else if streq(key, "port") {
                    if self.port.is_some() {
                        return Err(SettingsError::DuplicateKey);
                    }
                    match parse_int(value, 65535) {
                        Ok(x) => {
                            self.port = Some(x as u16);
                            Ok(())
                        },
                        Err(err) => Err(err),
                    }
                } else if streq(key, "ws_port") {
                    if self.ws_port.is_some() {
                        return Err(SettingsError::DuplicateKey);
                    }
                    match parse_int(value, 65535) {
                        Ok(x) => {
                            self.ws_port = Some(x as u16);
                            Ok(())
                        },
                        Err(err) => Err(err),
                    }
                } else if streq(key, "webroot") {
                    if self.webroot.is_some() {
                        return Err(SettingsError::DuplicateKey);
                    }
                    match parse_string(value) {
                        Ok(s) => {
                            self.webroot = Some(s);
                            Ok(())
                        },
                        Err(err) => Err(err),
                    }
                } else if streq(key, "more_events") {
                    if self.more_events.is_some() {
                        return Err(SettingsError::DuplicateKey);
                    }
                    match parse_bool(value) {
                        Ok(x) => {
                            self.more_events = Some(x);
                            Ok(())
                        },
                        Err(err) => Err(err),
                    }
                } else {
                    Err(SettingsError::UnknownKey)
                }
            },
            Section::Mixing => {
                if streq(key, "deck_list") {
                    if self.deck_list.is_some() {
                        return Err(SettingsError::DuplicateKey);
                    }
                    match parse_string_list(value) {
                        Ok(items) => {
                            self.deck_list = Some(items);
                            Ok(())
                        },
                        Err(err) => Err(err),
                    }
                } else if streq(key, "default_cover") {
                    if self.default_cover.is_some() {
                        return Err(SettingsError::DuplicateKey);
                    }
                    match parse_string(value) {
                        Ok(s) => {
                            self.default_cover = Some(s);
                            Ok(())
                        },
                        Err(err) => Err(err),
                    }
                } else {
                    Err(SettingsError::UnknownKey)
                }
            },
            Section::DeckChannelMap => {
                match parse_int(value, 255) {
                    Err(err) => Err(err),
                    Ok(x) => {
                        let key_string = key.to_owned();
                        if self.has_map_entry(&key_string) {
                            return Err(SettingsError::DuplicateKey);
                        }
                        let ghost before = self.deck_channel_map@;
                        proof {
                            assert forall|a: int| 0 <= a < before.len() implies before[a].0@
                                != key@ by {
                                assert(self@.deck_channel_map[a].0 == before[a].0@);
                            }
                        }
                        self.deck_channel_map.push((key_string, x as u8));
                        proof {
                            crate::assoc::lemma_assoc_map_push(
                                before,
                                (self.deck_channel_map@[before.len() as int].0, x as u8),
                            );
                            assert(self@.deck_channel_map =~= old(self)@.deck_channel_map.push(
                                (key@, x as u8),
                            ));
                        }
                        Ok(())
                    },
                }
            },
        }
    }

    /// Finishes the fold: every required setting must be present.
    fn finish(self) -> (r: Result<ServerSettings, SettingsError>)
        requires
            self.wf(),
        ensures
            match r {
                Ok(settings) => finish_builder(self@) == Ok::<SettingsModel, SettingsError>(
                    settings@,
                ) && settings.mixing.wf(),
                Err(e) => finish_builder(self@) == Err::<SettingsModel, SettingsError>(e),
            },
    {
        let SettingsBuilder {
            section: _,
            bind,
            port,
            ws_port,
            webroot,
            more_events,
            deck_list,
            default_cover,
            log_level,
            deck_channel_map,
        } = self;
        let bind = match bind {
            Some(x) => x,
            None => {
                return Err(SettingsError::MissingKey);
            },
        };
        let port = match port {
            Some(x) => x,
            None => {
                return Err(SettingsError::MissingKey);
            },
        };
        let ws_port = match ws_port {
            Some(x) => x,
            None => {
                return Err(SettingsError::MissingKey);
            },
        };
        let webroot = match webroot {
            Some(x) => x,
            None => {
                return Err(SettingsError::MissingKey);
            },
        };
        let more_events = match more_events {
            Some(x) => x,
            None => {
                return Err(SettingsError::MissingKey);
            },
        };
        let deck_list = match deck_list {
            Some(x) => x,
            None => {
                return Err(SettingsError::MissingKey);
            },
        };
        let default_cover = match default_cover {
            Some(x) => x,
            None => {
                return Err(SettingsError::MissingKey);
            },
        };
        Ok(
            ServerSettings {
                http: HttpSettings { bind, port, ws_port, webroot, more_events },
                mixing: MixingSettings { deck_list, deck_channel_map, default_cover },
                log_level,
            },
        )
    }
}

impl ServerSettings {
    /// Reads the settings from the text of a settings file.
    pub fn read(text: &str) -> (r: Result<ServerSettings, SettingsError>)
        ensures
            match r {
                Ok(settings) => parse_settings(text@) == Ok::<SettingsModel, SettingsError>(
                    settings@,
                ) && settings.mixing.wf(),
                Err(e) => parse_settings(text@) == Err::<SettingsModel, SettingsError>(e),
            },
    {
        if !text.is_ascii() {
            return Err(SettingsError::NotAscii);
        }
        let n = ascii_len(text);
        let mut builder = SettingsBuilder::new();
        let mut i: usize = 0;
        while i < n
            invariant
                text.is_ascii(),
                n == text@.len(),
                i <= n,
                builder.wf(),
                parse_from(text@, i as int, builder@) == parse_from(text@, 0, init_builder()),
            decreases n - i,
        {
            let j = find_char(text, i, 10);
            proof {
                assert('\n' as u8 == 10);
                lemma_upto(text@.skip(i as int), '\n');
                assert(j as int == scan_to(text@, i as int, '\n'));
            }
            let line = text.substring_ascii(i, j);
            let ghost before = builder@;
            match builder.apply(line) {
                Ok(unit) => {},
                Err(e) => {
                    proof {
                        assert(parse_from(text@, i as int, before) == Err::<
                            BuilderModel,
                            SettingsError,
                        >(e));
                    }
                    return Err(e);
                },
            }
            i = if j < n {
                j + 1
            } else {
                n
            };
        }
        let r = builder.finish();
        proof {
            assert(parse_from(text@, n as int, builder@) == Ok::<BuilderModel, SettingsError>(
                builder@,
            ));
        }
        r
    }

    /// Reads the settings from the text found at the default settings
    /// location.
    pub fn read_default(text: &str) -> (r: Result<ServerSettings, SettingsError>)
        ensures
            match r {
                Ok(settings) => parse_settings(text@) == Ok::<SettingsModel, SettingsError>(
                    settings@,
                ) && settings.mixing.wf(),
                Err(e) => parse_settings(text@) == Err::<SettingsModel, SettingsError>(e),
            },
    {
        Self::read(text)
    }
}

} // verus!
