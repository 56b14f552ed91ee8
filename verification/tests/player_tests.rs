use rustify::models::Folder;
use rustify::player::{DirListing, MusicPlayer, PlayerAction};

fn folder(path: &str, name: &str, songs: &[&str]) -> Folder {
    let files: Vec<String> = songs.iter().map(|s| format!("{}/{}", path, s)).collect();
    Folder::new(path.to_string(), name.to_string(), &files)
}

fn player() -> MusicPlayer {
    MusicPlayer::new(vec![
        folder("/m/rock", "rock", &["a.mp3", "b.mp3", "c.mp3"]),
        folder("/m/jazz", "jazz", &["x.mp3", "z.mp3"]),
    ])
}

#[test]
fn load_folders_root_first_then_nonempty_subdirs() {
    let root = vec!["/m/top.mp3".to_string(), "/m/notes.txt".to_string()];
    let subdirs = vec![
        DirListing { path: "/m/rock".to_string(), files: vec!["/m/rock/a.mp3".to_string()] },
        DirListing { path: "/m/empty".to_string(), files: vec!["/m/empty/x.txt".to_string()] },
        DirListing { path: "/m/jazz".to_string(), files: vec!["/m/jazz/j.ogg".to_string()] },
    ];
    let folders = MusicPlayer::load_folders("/m", &root, &subdirs);
    let names: Vec<&str> = folders.iter().map(|f| f.name.as_str()).collect();
    assert_eq!(names, vec!["Music", "rock", "jazz"]);
    assert!(folders[0].expanded);
    assert!(!folders[1].expanded);
    assert_eq!(folders[0].path, "/m");
}

#[test]
fn load_folders_without_root_songs() {
    let subdirs = vec![DirListing { path: "/m/rock".to_string(), files: vec!["/m/rock/a.mp3".to_string()] }];
    let folders = MusicPlayer::load_folders("/m", &Vec::new(), &subdirs);
    assert_eq!(folders.len(), 1);
    assert_eq!(folders[0].name, "rock");
}

#[test]
fn play_song_selects_and_returns_path() {
    let mut p = player();
    assert_eq!(p.play_song(0, 1), Some("/m/rock/b.mp3".to_string()));
    assert_eq!(p.current_folder_index, Some(0));
    assert_eq!(p.current_song_index, Some(1));
    assert_eq!(p.current_song.as_ref().unwrap().name, "b.mp3");
    assert!(!p.is_current_song(0, 1));
    p.playback_started(1000);
    assert!(p.is_current_song(0, 1));
    assert_eq!(p.play_song(5, 0), None);
    assert_eq!(p.play_song(0, 9), None);
    assert_eq!(p.current_song_index, Some(1));
}

#[test]
fn next_song_stays_in_folder_and_stops_at_end() {
    let mut p = player();
    p.play_song(1, 0);
    p.playback_started(0);
    match p.play_next_song() {
        PlayerAction::Play(path) => assert_eq!(path, "/m/jazz/z.mp3"),
        other => panic!("unexpected {:?}", other),
    }
    assert_eq!(p.current_song_index, Some(1));
    assert!(matches!(p.play_next_song(), PlayerAction::Stop));
    assert_eq!(p.current_folder_index, None);
    assert!(!p.is_playing);
    assert!(matches!(p.play_next_song(), PlayerAction::Nothing));
}

#[test]
fn previous_song_restarts_at_first() {
    let mut p = player();
    p.play_song(0, 2);
    assert_eq!(p.play_previous_song(), Some("/m/rock/b.mp3".to_string()));
    assert_eq!(p.play_previous_song(), Some("/m/rock/a.mp3".to_string()));
    assert_eq!(p.play_previous_song(), Some("/m/rock/a.mp3".to_string()));
    assert_eq!(p.current_song_index, Some(0));
}

#[test]
fn pause_resume_and_position() {
    let mut p = player();
    p.play_song(0, 0);
    p.playback_started(1_000);
    assert!(matches!(p.update_position(4_000, false), PlayerAction::Nothing));
    assert_eq!(p.current_position, 3_000);
    p.pause();
    assert!(!p.is_playing);
    p.update_position(9_000, false);
    assert_eq!(p.current_position, 3_000);
    p.resume(10_000);
    assert_eq!(p.song_start_time, Some(7_000));
    p.update_position(12_000, false);
    assert_eq!(p.current_position, 5_000);
}

#[test]
fn finished_output_moves_on() {
    let mut p = player();
    p.play_song(0, 0);
    p.playback_started(0);
    match p.update_position(100, true) {
        PlayerAction::Play(path) => assert_eq!(path, "/m/rock/b.mp3"),
        other => panic!("unexpected {:?}", other),
    }
}

#[test]
fn stop_clears_everything() {
    let mut p = player();
    p.play_song(0, 0);
    p.playback_started(5);
    p.stop();
    assert!(p.current_song.is_none());
    assert_eq!(p.current_folder_index, None);
    assert_eq!(p.current_song_index, None);
    assert!(!p.is_playing);
    assert_eq!(p.song_start_time, None);
    assert_eq!(p.current_position, 0);
}

#[test]
fn move_song_updates_both_folders_and_current_song() {
    let mut p = player();
    p.play_song(0, 1);
    assert_eq!(
        p.move_paths(0, 1, 1),
        Some(("/m/rock/b.mp3".to_string(), "/m/jazz/b.mp3".to_string()))
    );
    p.move_song_to_folder(0, 1, 1, true);
    let rock: Vec<&str> = p.folders[0].songs.iter().map(|s| s.name.as_str()).collect();
    let jazz: Vec<&str> = p.folders[1].songs.iter().map(|s| s.path.as_str()).collect();
    assert_eq!(rock, vec!["a.mp3", "c.mp3"]);
    assert_eq!(jazz, vec!["/m/jazz/b.mp3", "/m/jazz/x.mp3", "/m/jazz/z.mp3"]);
    assert_eq!(p.current_folder_index, Some(1));
    assert_eq!(p.current_song_index, Some(0));
}

#[test]
fn move_song_shifts_later_current_song() {
    let mut p = player();
    p.play_song(0, 2);
    p.move_song_to_folder(0, 0, 1, true);
    assert_eq!(p.current_folder_index, Some(0));
    assert_eq!(p.current_song_index, Some(1));
}

#[test]
fn failed_or_invalid_moves_change_nothing() {
    let mut p = player();
    p.move_song_to_folder(0, 0, 1, false);
    assert_eq!(p.folders[0].song_count(), 3);
    p.move_song_to_folder(0, 0, 0, true);
    p.move_song_to_folder(0, 7, 1, true);
    p.move_song_to_folder(4, 0, 1, true);
    assert_eq!(p.folders[0].song_count(), 3);
    assert_eq!(p.folders[1].song_count(), 2);
    assert_eq!(p.move_paths(0, 0, 0), None);
}

#[test]
fn toggle_folder_and_drag_state() {
    let mut p = player();
    p.toggle_folder_expanded(1);
    assert!(p.folders[1].expanded);
    p.toggle_folder_expanded(9);
    p.set_dragged_song(0, 2);
    assert_eq!(p.dragged_song, Some((0, 2)));
    p.clear_dragged_song();
    assert_eq!(p.dragged_song, None);
}

#[test]
fn moves_keep_the_number_of_songs() {
    let mut p = player();
    let total = |p: &MusicPlayer| p.folders.iter().map(|f| f.song_count()).sum::<usize>();
    assert_eq!(total(&p), 5);
    p.move_song_to_folder(1, 0, 0, true);
    assert_eq!(total(&p), 5);
    p.move_song_to_folder(0, 3, 1, false);
    assert_eq!(total(&p), 5);
    assert!(p.folders[0].songs.iter().any(|s| s.name == "x.mp3" && s.path == "/m/rock/x.mp3"));
}
