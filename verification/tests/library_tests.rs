use rustify::library::{MusicLibrary, Track};

#[test]
fn track_from_artist_title_file_name() {
    let t = Track::from_path("/music/Best Of/Queen - We Will Rock You.mp3", Some(4096)).unwrap();
    assert_eq!(t.artist, "Queen");
    assert_eq!(t.title, "We Will Rock You");
    assert_eq!(t.album, "Best Of");
    assert_eq!(t.format, "MP3");
    assert_eq!(t.file_size, 4096);
    assert_eq!(t.path, "/music/Best Of/Queen - We Will Rock You.mp3");
}

#[test]
fn track_splits_at_first_separator_only() {
    let t = Track::from_path("a - b - c.flac", Some(1)).unwrap();
    assert_eq!(t.artist, "a");
    assert_eq!(t.title, "b - c");
    assert_eq!(t.album, "Unknown Album");
    assert_eq!(t.format, "FLAC");
}

#[test]
fn track_without_separator_has_unknown_artist() {
    let t = Track::from_path("/x/y/plain.Ogg", Some(7)).unwrap();
    assert_eq!(t.artist, "Unknown Artist");
    assert_eq!(t.title, "plain");
    assert_eq!(t.album, "y");
    assert_eq!(t.format, "OGG");
}

#[test]
fn non_audio_or_unreadable_files_give_no_track() {
    assert!(Track::from_path("/x/readme.txt", Some(7)).is_none());
    assert!(Track::from_path("/x/song.mp3", None).is_none());
    assert!(Track::from_path("/x/noext", Some(1)).is_none());
}

fn track(path: &str) -> Track {
    Track::from_path(path, Some(1)).unwrap()
}

#[test]
fn search_matches_title_artist_album_ignoring_case() {
    let t = track("/m/Greatest Hits/ABBA - Waterloo.mp3");
    assert!(t.matches_search(""));
    assert!(t.matches_search("water"));
    assert!(t.matches_search("abba"));
    assert!(t.matches_search("GREATEST"));
    assert!(!t.matches_search("queen"));
}

#[test]
fn scan_replaces_tracks_under_the_directory_and_sorts() {
    let mut lib = MusicLibrary::new();
    lib.scan_directory("/m".to_string());
    assert!(lib.is_scanning());
    lib.finish_scan("/m", vec![track("/m/b/Zed - One.mp3"), track("/m/a/Abe - Two.mp3")]);
    assert!(!lib.is_scanning());
    assert_eq!(lib.track_count(), 2);
    assert_eq!(lib.tracks[0].artist, "Abe");
    lib.scan_directory("/other".to_string());
    lib.finish_scan("/other", vec![track("/other/x/Moe - Three.wav")]);
    lib.scan_directory("/m/".to_string());
    lib.finish_scan("/m", vec![track("/m/c/Ann - Four.mp3")]);
    let artists: Vec<&str> = lib.tracks.iter().map(|t| t.artist.as_str()).collect();
    assert_eq!(artists, vec!["Ann", "Moe"]);
    assert_eq!(lib.library_paths, vec!["/m".to_string(), "/other".to_string()]);
}

#[test]
fn sort_by_artist_album_title() {
    let mut lib = MusicLibrary::new();
    lib.finish_scan(
        "/m",
        vec![
            track("/m/B/X - t2.mp3"),
            track("/m/A/X - t9.mp3"),
            track("/m/A/X - t1.mp3"),
            track("/m/A/W - t5.mp3"),
        ],
    );
    let keys: Vec<(String, String, String)> = lib
        .tracks
        .iter()
        .map(|t| (t.artist.clone(), t.album.clone(), t.title.clone()))
        .collect();
    let mut expected = keys.clone();
    expected.sort();
    assert_eq!(keys, expected);
    assert_eq!(lib.tracks[0].artist, "W");
}

#[test]
fn filtered_tracks_keep_library_order() {
    let mut lib = MusicLibrary::new();
    lib.finish_scan("/m", vec![track("/m/a/Ann - Rain.mp3"), track("/m/a/Bob - Sun.mp3"), track("/m/a/Cid - Rainbow.mp3")]);
    let hits: Vec<String> = lib.get_filtered_tracks("rain").iter().map(|t| t.title.clone()).collect();
    assert_eq!(hits, vec!["Rain".to_string(), "Rainbow".to_string()]);
    assert_eq!(lib.get_filtered_tracks("").len(), 3);
}

#[test]
fn fields_contain_is_case_sensitive_on_its_own() {
    assert!(Track::fields_contain("rain", "x", "y", "ai"));
    assert!(Track::fields_contain("x", "y", "album", "bum"));
    assert!(!Track::fields_contain("Rain", "x", "y", "rain"));
    assert!(Track::fields_contain("", "", "", ""));
}
