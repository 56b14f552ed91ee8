use rustify::audio::{is_audio_extension_name, is_audio_file, AudioPlayer, OutputCommand};

#[test]
fn audio_extensions_in_any_case() {
    for p in ["a.mp3", "a.WAV", "/x/a.ogg", "a.FlAc", "a.m4a", "a.aac", "a.wma", "a.MP4"] {
        assert!(is_audio_file(p), "{}", p);
    }
    for p in ["a.txt", "mp3", ".mp3", "a.mp3.bak", "/x/y/", ""] {
        assert!(!is_audio_file(p), "{}", p);
    }
}

#[test]
fn pause_keeps_time_and_resume_continues() {
    let mut p = AudioPlayer::new();
    assert_eq!(p.toggle_playback(0), None);
    assert!(!p.has_file_loaded());
    p.play_file("/m/a.mp3".to_string(), 1_000, Some(60_000));
    assert!(p.has_file_loaded());
    assert_eq!(p.current_time(4_000), 3_000);
    assert_eq!(p.toggle_playback(4_000), Some(OutputCommand::Pause));
    assert_eq!(p.current_time(90_000), 3_000);
    assert!(!p.is_playing(false));
    assert_eq!(p.toggle_playback(10_000), Some(OutputCommand::Play));
    assert_eq!(p.current_time(12_000), 5_000);
    assert!(p.is_playing(false));
    assert!(!p.is_playing(true));
    assert_eq!(p.total_time(), 60_000);
}

#[test]
fn stop_and_defaults() {
    let mut p = AudioPlayer::new();
    assert!(p.is_finished(false));
    p.play_file("/m/a.mp3".to_string(), 0, None);
    assert_eq!(p.total_time(), 180_000_000_000);
    assert!(!p.is_finished(false));
    assert!(p.is_finished(true));
    p.stop();
    assert!(!p.has_file_loaded());
    assert_eq!(p.current_time(50), 0);
}

#[test]
fn audio_extension_names_are_lower_case() {
    assert!(is_audio_extension_name(&"m4a".to_string()));
    assert!(!is_audio_extension_name(&"M4A".to_string()));
    assert!(!is_audio_extension_name(&"txt".to_string()));
}
