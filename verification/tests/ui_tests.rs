use rustify::models::Folder;
use rustify::player::MusicPlayer;
use rustify::ui::{Controls, PlayPause, SearchBar, SongList, SpotifyLayout};

fn folder(path: &str, name: &str, songs: &[&str]) -> Folder {
    let files: Vec<String> = songs.iter().map(|s| format!("{}/{}", path, s)).collect();
    Folder::new(path.to_string(), name.to_string(), &files)
}

fn player() -> MusicPlayer {
    MusicPlayer::new(vec![
        folder("/m/Rock", "Rock Classics", &["Anthem.mp3", "ballad.mp3"]),
        folder("/m/jazz", "jazz", &["So What.mp3", "Rock It.ogg", "blue.wav"]),
    ])
}

#[test]
fn search_finds_whole_folders_and_single_songs() {
    let p = player();
    let mut bar = SearchBar::default();
    assert!(bar.results(&p).is_empty());
    bar.set_search_text("ROCK".to_string());
    assert!(bar.is_searching());
    assert_eq!(bar.get_search_text(), "ROCK");
    assert_eq!(bar.filter_songs(&p), vec![(0, 0), (0, 1), (1, 0)]);
    bar.set_search_text("b".to_string());
    assert_eq!(bar.results(&p), vec![(0, 1), (1, 2)]);
    bar.clear();
    assert!(!bar.is_searching());
    assert!(bar.results(&p).is_empty());
}

#[test]
fn sidebar_totals_and_active_folder() {
    let mut p = player();
    assert_eq!(SpotifyLayout::library_totals(&p), (2, 5));
    assert!(!SpotifyLayout::is_active_folder(&p, 0));
    p.play_song(1, 0);
    assert!(SpotifyLayout::is_active_folder(&p, 1));
    assert!(!SpotifyLayout::is_active_folder(&p, 0));
}

#[test]
fn drop_on_folder_outcomes() {
    assert_eq!(SongList::drop_on_folder(Some((0, 1)), true, true, true, 3), (Some((0, 1, 3)), true));
    assert_eq!(SongList::drop_on_folder(Some((0, 1)), true, true, false, 3), (None, true));
    assert_eq!(SongList::drop_on_folder(Some((0, 1)), false, true, true, 3), (None, false));
    assert_eq!(SongList::drop_on_folder(Some((0, 1)), true, false, true, 3), (None, false));
    assert_eq!(SongList::drop_on_folder(None, true, true, true, 3), (None, false));
}

#[test]
fn play_pause_button() {
    let mut p = player();
    assert_eq!(Controls::play_pause(&mut p, 0), PlayPause::Unchanged);
    p.play_song(0, 0);
    p.playback_started(100);
    assert_eq!(Controls::play_pause(&mut p, 200), PlayPause::Paused);
    assert!(!p.is_playing);
    assert_eq!(Controls::play_pause(&mut p, 300), PlayPause::Resumed);
    assert!(p.is_playing);
}

#[test]
fn hits_in_folder_with_lowered_names() {
    let songs = vec!["alpha.mp3".to_string(), "beta.mp3".to_string(), "alphabet.ogg".to_string()];
    assert_eq!(SearchBar::hits_in_folder(4, "misc", &songs, "alpha"), vec![(4, 0), (4, 2)]);
    assert_eq!(SearchBar::hits_in_folder(4, "alpha mix", &songs, "alpha"), vec![(4, 0), (4, 1), (4, 2)]);
    assert_eq!(SearchBar::hits_in_folder(4, "misc", &songs, "zzz"), vec![]);
}

#[test]
fn ui_helpers_are_reachable_from_ui() {
    assert_eq!(rustify::ui::UiHelpers::format_file_size(2048), "2.0 KB");
}

#[test]
fn longer_query_never_finds_more() {
    let p = player();
    let mut bar = SearchBar::default();
    let queries = ["o", "ro", "roc", "rock", "rock ", "rock i", "rock it", "rock it!"];
    let mut previous: Option<Vec<(usize, usize)>> = None;
    for q in queries {
        bar.set_search_text(q.to_uppercase());
        let hits = bar.filter_songs(&p);
        if let Some(prev) = &previous {
            assert!(hits.iter().all(|h| prev.contains(h)), "{}", q);
        }
        previous = Some(hits);
    }
    bar.set_search_text("rock it".to_string());
    assert_eq!(bar.filter_songs(&p), vec![(1, 0)]);
    bar.set_search_text("rock it!".to_string());
    assert!(bar.filter_songs(&p).is_empty());
}
