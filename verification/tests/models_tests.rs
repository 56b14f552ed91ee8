use rustify::models::{Folder, Song};

fn files(names: &[&str]) -> Vec<String> {
    names.iter().map(|s| s.to_string()).collect()
}

#[test]
fn song_is_named_by_its_file_name() {
    let s = Song::new("/music/rock/Track One.mp3".to_string());
    assert_eq!(s.name, "Track One.mp3");
    assert_eq!(s.path, "/music/rock/Track One.mp3");
    let odd = Song::new("/music/..".to_string());
    assert_eq!(odd.name, "");
}

#[test]
fn supported_formats_ignore_case() {
    assert!(Song::is_supported_format("/m/a.mp3"));
    assert!(Song::is_supported_format("/m/a.FLAC"));
    assert!(Song::is_supported_format("/m/a.Ogg"));
    assert!(Song::is_supported_format("a.wav"));
    assert!(Song::is_supported_format("/m/a.m4a"));
    assert!(Song::is_supported_format("/m/a.AAC"));
    assert!(Song::is_supported_format("/m/a.wma"));
    assert!(Song::is_supported_format("/m/a.Mp4"));
    assert!(!Song::is_supported_format("/m/a.txt"));
    assert!(!Song::is_supported_format("/m/mp3"));
    assert!(!Song::is_supported_format("/m/.mp3"));
}

#[test]
fn folder_keeps_song_files_sorted_by_name() {
    let f = Folder::new(
        "/m/rock".to_string(),
        "rock".to_string(),
        &files(&["/m/rock/b.mp3", "/m/rock/cover.jpg", "/m/rock/a.wav", "/m/rock/C.ogg"]),
    );
    let names: Vec<&str> = f.songs.iter().map(|s| s.name.as_str()).collect();
    assert_eq!(names, vec!["C.ogg", "a.wav", "b.mp3"]);
    assert!(!f.expanded);
    assert_eq!(f.song_count(), 3);
    assert!(!f.is_empty());
}

#[test]
fn add_song_sorts_again_and_keeps_equal_names_in_order() {
    let mut f = Folder::new("/m".to_string(), "m".to_string(), &files(&["/m/b.mp3", "/m/d.mp3"]));
    f.add_song(Song::new("/other/c.mp3".to_string()));
    f.add_song(Song::new("/x/b.mp3".to_string()));
    let paths: Vec<&str> = f.songs.iter().map(|s| s.path.as_str()).collect();
    assert_eq!(paths, vec!["/m/b.mp3", "/x/b.mp3", "/other/c.mp3", "/m/d.mp3"]);
}

#[test]
fn remove_song_in_and_out_of_range() {
    let mut f = Folder::new("/m".to_string(), "m".to_string(), &files(&["/m/a.mp3", "/m/b.mp3"]));
    let removed = f.remove_song(0).unwrap();
    assert_eq!(removed.name, "a.mp3");
    assert_eq!(f.song_count(), 1);
    assert!(f.remove_song(5).is_none());
    assert_eq!(f.song_count(), 1);
}

#[test]
fn toggle_expanded_flips() {
    let mut f = Folder::new("/m".to_string(), "m".to_string(), &Vec::new());
    assert!(f.is_empty());
    f.toggle_expanded();
    assert!(f.expanded);
    f.toggle_expanded();
    assert!(!f.expanded);
}

#[test]
fn song_extension_names_are_lower_case() {
    assert!(Song::is_song_extension_name(&"flac".to_string()));
    assert!(!Song::is_song_extension_name(&"FLAC".to_string()));
    assert!(Song::is_song_extension_name(&"m4a".to_string()));
    assert!(Song::is_song_extension_name(&"mp4".to_string()));
    assert!(!Song::is_song_extension_name(&"MP4".to_string()));
    assert!(!Song::is_song_extension_name(&"txt".to_string()));
}

#[test]
fn song_files_are_audio_files() {
    for p in ["a.mp3", "b.WAV", "c.flac", "d.Ogg", "e.m4a", "f.txt", ".mp3"] {
        assert_eq!(Song::is_supported_format(p), rustify::audio::is_audio_file(p), "{}", p);
    }
}
