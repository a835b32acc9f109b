use mixhub::settings::{ServerSettings, SettingsError};

fn full_config() -> String {
    String::from(
        "# overlay hub configuration\n\
         log_level = \"Debug\"\n\
         \n\
         [http]\n\
         bind = \"0.0.0.0\"\n\
         port = 8080\n\
         ws_port = 8081\n\
         webroot = \"./web\"\n\
         more_events = false\n\
         \n\
         [mixing]\n\
         deck_list = [\"A\", \"B\"]\n\
         default_cover = \"cover.png\"\n\
         \n\
         [mixing.deck_channel_map]\n\
         A = 1\n\
         B = 2\n",
    )
}

#[test]
fn reads_a_full_settings_file() {
    let settings = ServerSettings::read(&full_config()).expect("well-formed settings");
    assert_eq!(settings.http.bind, "0.0.0.0");
    assert_eq!(settings.http.port, 8080);
    assert_eq!(settings.http.ws_port, 8081);
    assert_eq!(settings.http.webroot, "./web");
    assert!(!settings.http.more_events);
    assert_eq!(
        settings.mixing.deck_list,
        vec![String::from("A"), String::from("B")]
    );
    assert_eq!(
        settings.mixing.deck_channel_map,
        vec![(String::from("A"), 1u8), (String::from("B"), 2u8)]
    );
    assert_eq!(settings.mixing.default_cover, "cover.png");
    assert_eq!(settings.log_level, Some(String::from("Debug")));
}

#[test]
fn read_default_reads_the_same_format() {
    let settings = ServerSettings::read_default(&full_config()).expect("well-formed settings");
    assert_eq!(settings.http.port, 8080);
}

#[test]
fn log_level_is_optional() {
    let text = full_config().replace("log_level = \"Debug\"\n", "");
    let settings = ServerSettings::read(&text).expect("well-formed settings");
    assert_eq!(settings.log_level, None);
}

#[test]
fn routing_section_may_be_absent() {
    let text = full_config()
        .replace("[mixing.deck_channel_map]\n", "")
        .replace("A = 1\n", "")
        .replace("B = 2\n", "");
    let settings = ServerSettings::read(&text).expect("well-formed settings");
    assert!(settings.mixing.deck_channel_map.is_empty());
}

#[test]
fn deck_list_may_be_empty() {
    let text = full_config().replace("deck_list = [\"A\", \"B\"]", "deck_list = []");
    let settings = ServerSettings::read(&text).expect("well-formed settings");
    assert!(settings.mixing.deck_list.is_empty());
}

#[test]
fn whitespace_and_crlf_are_tolerated() {
    let text = full_config().replace("port = 8080\n", "  port\t=  8080  \r\n");
    let settings = ServerSettings::read(&text).expect("well-formed settings");
    assert_eq!(settings.http.port, 8080);
}

#[test]
fn non_ascii_text_is_rejected() {
    let text = full_config().replace("./web", "./w\u{e9}b");
    assert!(matches!(
        ServerSettings::read(&text),
        Err(SettingsError::NotAscii)
    ));
}

#[test]
fn a_line_without_an_equals_sign_is_rejected() {
    let text = format!("{}nonsense\n", full_config());
    assert!(matches!(
        ServerSettings::read(&text),
        Err(SettingsError::BadLine)
    ));
}

#[test]
fn an_unknown_section_is_rejected() {
    let text = format!("{}[nope]\n", full_config());
    assert!(matches!(
        ServerSettings::read(&text),
        Err(SettingsError::UnknownSection)
    ));
}

#[test]
fn an_unknown_key_is_rejected() {
    let text = full_config().replace("bind =", "blind =");
    assert!(matches!(
        ServerSettings::read(&text),
        Err(SettingsError::UnknownKey)
    ));
}

#[test]
fn an_out_of_range_port_is_rejected() {
    let text = full_config().replace("port = 8080", "port = 99999");
    assert!(matches!(
        ServerSettings::read(&text),
        Err(SettingsError::BadValue)
    ));
}

#[test]
fn a_wrongly_typed_value_is_rejected() {
    let text = full_config().replace("port = 8080", "port = \"eighty\"");
    assert!(matches!(
        ServerSettings::read(&text),
        Err(SettingsError::BadValue)
    ));
}

#[test]
fn a_channel_number_above_255_is_rejected() {
    let text = full_config().replace("A = 1", "A = 300");
    assert!(matches!(
        ServerSettings::read(&text),
        Err(SettingsError::BadValue)
    ));
}

#[test]
fn a_repeated_setting_is_rejected() {
    let text = format!("{}[http]\nbind = \"127.0.0.1\"\n", full_config());
    assert!(matches!(
        ServerSettings::read(&text),
        Err(SettingsError::DuplicateKey)
    ));
}

#[test]
fn a_repeated_routing_entry_is_rejected() {
    let text = format!("{}[mixing.deck_channel_map]\nA = 3\n", full_config());
    assert!(matches!(
        ServerSettings::read(&text),
        Err(SettingsError::DuplicateKey)
    ));
}

#[test]
fn a_missing_required_setting_is_rejected() {
    let text = full_config().replace("ws_port = 8081\n", "");
    assert!(matches!(
        ServerSettings::read(&text),
        Err(SettingsError::MissingKey)
    ));
    assert!(matches!(
        ServerSettings::read(""),
        Err(SettingsError::MissingKey)
    ));
}

#[test]
fn an_unclosed_section_header_is_rejected() {
    let text = full_config().replace("[mixing]", "[mixing");
    assert!(matches!(
        ServerSettings::read(&text),
        Err(SettingsError::BadLine)
    ));
}

#[test]
fn an_empty_key_is_rejected() {
    let text = format!("{}= 5\n", full_config());
    assert!(matches!(
        ServerSettings::read(&text),
        Err(SettingsError::BadLine)
    ));
}

#[test]
fn string_values_have_no_escape_sequences() {
    let text = full_config().replace("./web", "a\\tb");
    assert!(matches!(
        ServerSettings::read(&text),
        Err(SettingsError::BadValue)
    ));
}

#[test]
fn a_trailing_comma_in_a_list_is_rejected() {
    let text = full_config().replace("[\"A\", \"B\"]", "[\"A\", \"B\",]");
    assert!(matches!(
        ServerSettings::read(&text),
        Err(SettingsError::BadValue)
    ));
}

#[test]
fn routing_lookup_follows_the_table() {
    let settings = ServerSettings::read(&full_config()).expect("well-formed settings");
    assert_eq!(settings.mixing.channel_of(&String::from("A")), Some(1));
    assert_eq!(settings.mixing.channel_of(&String::from("B")), Some(2));
    assert_eq!(settings.mixing.channel_of(&String::from("Z")), None);
}
