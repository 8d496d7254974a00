use dankbot::guild::{DankGuild, GuildRegistry, GuildSettings, TtsError};
use dankbot::voice::TtsMessage;

#[test]
fn settings_start_at_default() {
    let s = GuildSettings::new();
    assert_eq!(s.volume, 1);
    assert!(s.tts_channels.is_empty());
}

#[test]
fn new_guild_is_silent() {
    let g = DankGuild::new(77);
    assert_eq!(g.id, 77);
    assert_eq!(g.volume, 1);
    assert!(g.tts_channels.is_empty());
    assert!(!g.is_speaking());
    assert!(matches!(g.say_message("hi".to_string()), Err(TtsError::SenderMissing)));
}

#[test]
fn error_text() {
    assert_eq!(TtsError::SenderMissing.message(), "TTS sender is not present");
}

#[test]
fn initialize_then_say_then_end() {
    let mut g = DankGuild::new(1);
    assert!(g.initialize_tts());
    assert!(!g.initialize_tts());
    assert!(g.is_speaking());
    match g.say_message("hello".to_string()) {
        Ok(TtsMessage::NewMessage(m)) => assert_eq!(m, "hello"),
        Err(_) => panic!("speech should be running"),
    }
    assert!(g.toggle_tts_channel(10));
    g.set_volume(4);
    g.end_tts();
    assert!(!g.is_speaking());
    assert!(g.tts_channels.is_empty());
    assert_eq!(g.volume, 4);
    assert!(g.say_message("x".to_string()).is_err());
    g.end_tts();
    assert!(!g.is_speaking());
}

#[test]
fn end_without_speech_keeps_channels() {
    let mut g = DankGuild::new(1);
    assert!(g.toggle_tts_channel(5));
    g.end_tts();
    assert!(g.reads_channel(5));
}

#[test]
fn toggle_twice_restores() {
    let mut g = DankGuild::new(1);
    assert!(g.toggle_tts_channel(5));
    assert!(g.reads_channel(5));
    assert!(!g.toggle_tts_channel(5));
    assert!(!g.reads_channel(5));
}

#[test]
fn inspiration_toggles() {
    let mut g = DankGuild::new(1);
    assert!(g.toggle_inspiration());
    assert!(!g.toggle_inspiration());
    assert!(g.toggle_inspiration());
}

#[test]
fn registry_creates_guilds_on_demand() {
    let mut r = GuildRegistry::new();
    assert!(r.guild(3).is_none());
    assert!(!r.reads_channel(3, 9));
    assert!(r.toggle_tts_channel(3, 9));
    assert!(r.reads_channel(3, 9));
    assert!(!r.reads_channel(4, 9));
    let g = r.guild(3).expect("made by toggle");
    assert_eq!(g.id, 3);
    assert_eq!(g.volume, 1);
    r.set_volume(3, 7);
    assert_eq!(r.guild(3).unwrap().volume, 7);
    assert!(r.guild(4).is_none());
}

#[test]
fn registry_end_tts_only_known_guilds() {
    let mut r = GuildRegistry::new();
    r.end_tts(5);
    assert!(r.guild(5).is_none());
    assert!(r.initialize_tts(5));
    assert!(!r.initialize_tts(5));
    assert!(r.toggle_tts_channel(5, 1));
    r.end_tts(5);
    assert!(!r.reads_channel(5, 1));
    assert!(!r.guild(5).unwrap().is_speaking());
    assert!(r.initialize_tts(5));
}
