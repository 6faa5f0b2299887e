use tiny_mp3_player::debug::{DebugConfig, DebugType};

#[test]
fn listed_parts_are_enabled() {
    let config = DebugConfig::new(&[DebugType::Header, DebugType::SideInfo, DebugType::Header]);
    assert_eq!(
        config.enabled_types,
        vec![DebugType::Header, DebugType::SideInfo, DebugType::Header]
    );
    assert!(config.is_enabled(DebugType::Header));
    assert!(config.is_enabled(DebugType::SideInfo));
    assert!(!config.is_enabled(DebugType::Decoder));
    assert!(!config.is_enabled(DebugType::ScaleFactor));
    assert!(!config.is_enabled(DebugType::All));
}

#[test]
fn all_stands_for_the_four_parts() {
    let config = DebugConfig::new(&[DebugType::Header, DebugType::All, DebugType::Decoder]);
    assert_eq!(
        config.enabled_types,
        vec![DebugType::Decoder, DebugType::Header, DebugType::SideInfo, DebugType::ScaleFactor]
    );
    assert!(config.is_enabled(DebugType::Decoder));
    assert!(config.is_enabled(DebugType::Header));
    assert!(config.is_enabled(DebugType::SideInfo));
    assert!(config.is_enabled(DebugType::ScaleFactor));
    assert!(!config.is_enabled(DebugType::All));
}

#[test]
fn nothing_listed_enables_nothing() {
    let config = DebugConfig::new(&[]);
    assert!(config.enabled_types.is_empty());
    assert!(!config.is_enabled(DebugType::Header));
    assert_eq!(config, DebugConfig::default());
}
