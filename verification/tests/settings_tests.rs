use rustify::settings::{default_music_dir, settings_file_path, LibrarySettings, RepeatMode, Theme};

#[test]
fn default_music_dir_prefers_audio_then_home() {
    assert_eq!(default_music_dir(Some("/a/Music".to_string()), Some("/h".to_string())), "/a/Music");
    assert_eq!(default_music_dir(None, Some("/home/u".to_string())), "/home/u/Music");
    assert_eq!(default_music_dir(None, None), ".");
}

#[test]
fn library_settings_defaults() {
    let s = LibrarySettings::from_user_dirs(None, Some("/home/u".to_string()));
    assert_eq!(s.music_directories, vec!["/home/u/Music"]);
    assert!(s.auto_scan);
    assert_eq!(s.scan_interval_hours, 24);
    assert!(s.watch_folders);
    assert_eq!(s.supported_formats, vec!["mp3", "wav", "ogg", "flac", "m4a", "aac", "wma", "mp4"]);
}

#[test]
fn names_and_settings_path() {
    assert_eq!(Theme::Dark.name(), "Dark");
    assert_eq!(Theme::Light.name(), "Light");
    assert_eq!(Theme::Auto.name(), "Auto");
    assert_eq!(RepeatMode::Off.name(), "None");
    assert_eq!(RepeatMode::Track.name(), "Track");
    assert_eq!(RepeatMode::Playlist.name(), "Playlist");
    assert_eq!(settings_file_path("/home/u/.config"), "/home/u/.config/rustify/settings.json");
}

#[test]
fn library_settings_take_the_audio_directory_first() {
    let s = LibrarySettings::from_user_dirs(Some("/a/Music".to_string()), Some("/h".to_string()));
    assert_eq!(s.music_directories, vec!["/a/Music"]);
    let t = LibrarySettings::from_user_dirs(None, None);
    assert_eq!(t.music_directories, vec!["."]);
}
