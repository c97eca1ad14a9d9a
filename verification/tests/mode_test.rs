use mockingbird::mode::Mode;

#[test]
fn test_mode_default() {
    assert_eq!(Mode::default(), Mode::Auto);
}

#[test]
fn test_records() {
    assert!(Mode::Record.records());
    assert!(Mode::Auto.records());
    assert!(!Mode::Replay.records());
    assert!(!Mode::Passthrough.records());
}

#[test]
fn test_replays() {
    assert!(Mode::Replay.replays());
    assert!(Mode::Auto.replays());
    assert!(!Mode::Record.replays());
    assert!(!Mode::Passthrough.replays());
}

#[test]
fn test_allows_real_requests() {
    assert!(Mode::Record.allows_real_requests());
    assert!(Mode::Auto.allows_real_requests());
    assert!(Mode::Passthrough.allows_real_requests());
    assert!(!Mode::Replay.allows_real_requests());
}

#[test]
fn test_display() {
    assert_eq!(Mode::Record.to_string(), "record");
    assert_eq!(Mode::Replay.to_string(), "replay");
    assert_eq!(Mode::Auto.to_string(), "auto");
    assert_eq!(Mode::Passthrough.to_string(), "passthrough");
}

#[test]
fn test_from_str() {
    assert_eq!("record".parse::<Mode>().unwrap(), Mode::Record);
    assert_eq!("REPLAY".parse::<Mode>().unwrap(), Mode::Replay);
    assert_eq!("playback".parse::<Mode>().unwrap(), Mode::Replay);
    assert_eq!("PLAYBACK".parse::<Mode>().unwrap(), Mode::Replay);
    assert_eq!("Auto".parse::<Mode>().unwrap(), Mode::Auto);
    assert_eq!("passthrough".parse::<Mode>().unwrap(), Mode::Passthrough);
    assert_eq!("pass".parse::<Mode>().unwrap(), Mode::Passthrough);
}

#[test]
fn test_from_str_invalid() {
    assert!("invalid".parse::<Mode>().is_err());
}

#[test]
fn mode_invalid_message() {
    let err = Mode::parse("Bogus").unwrap_err();
    assert_eq!(err, "Invalid mode: Bogus. Use record, replay, auto, or passthrough");
}

#[test]
fn mode_name_round_trip() {
    for m in [Mode::Record, Mode::Replay, Mode::Auto, Mode::Passthrough] {
        assert_eq!(Mode::parse(&m.to_string()), Ok(m));
    }
}

#[test]
fn mode_from_word_needs_lowercase() {
    assert_eq!(Mode::from_word("pass"), Some(Mode::Passthrough));
    assert_eq!(Mode::from_word("Pass"), None);
}
