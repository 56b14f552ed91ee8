use rustify::paths::{
    join_path, path_extension, path_file_name, path_file_stem, path_parent_name, paths_equal,
    starts_with_path,
};

#[test]
fn file_name_takes_last_component() {
    assert_eq!(path_file_name("/music/rock/song.mp3"), Some("song.mp3".to_string()));
    assert_eq!(path_file_name("/music/rock/"), Some("rock".to_string()));
    assert_eq!(path_file_name("foo.txt/."), Some("foo.txt".to_string()));
    assert_eq!(path_file_name("/music/.."), None);
    assert_eq!(path_file_name("/"), None);
    assert_eq!(path_file_name(""), None);
    assert_eq!(path_file_name("."), None);
}

#[test]
fn extension_and_stem_follow_the_last_dot() {
    assert_eq!(path_extension("a/b.tar.gz"), Some("gz".to_string()));
    assert_eq!(path_file_stem("a/b.tar.gz"), Some("b.tar".to_string()));
    assert_eq!(path_extension("a/.hidden"), None);
    assert_eq!(path_file_stem("a/.hidden"), Some(".hidden".to_string()));
    assert_eq!(path_extension("a/noext"), None);
    assert_eq!(path_extension("a/trailing."), Some("".to_string()));
    assert_eq!(path_extension("a/.x.mp3"), Some("mp3".to_string()));
}

#[test]
fn parent_name_is_the_directory() {
    assert_eq!(path_parent_name("/music/rock/song.mp3"), Some("rock".to_string()));
    assert_eq!(path_parent_name("song.mp3"), None);
    assert_eq!(path_parent_name("/song.mp3"), None);
    assert_eq!(path_parent_name("../song.mp3"), None);
}

#[test]
fn path_equality_and_prefix_go_by_components() {
    assert!(paths_equal("/a//b/", "/a/b"));
    assert!(!paths_equal("/a/b", "a/b"));
    assert!(!paths_equal("./a", "a"));
    assert!(starts_with_path("/music/rock/x.mp3", "/music"));
    assert!(starts_with_path("/music/rock/x.mp3", "/music/rock/"));
    assert!(!starts_with_path("/musicals/x.mp3", "/music"));
    assert!(!starts_with_path("/music", "/music/rock"));
}

#[test]
fn join_puts_one_separator() {
    assert_eq!(join_path("/music/rock", "a.mp3"), "/music/rock/a.mp3");
    assert_eq!(join_path("/music/rock/", "a.mp3"), "/music/rock/a.mp3");
    assert_eq!(join_path("", "a.mp3"), "a.mp3");
    assert_eq!(join_path("/music", "/abs"), "/abs");
}

#[test]
fn joined_plain_name_is_the_file_name() {
    let joined = join_path("/music/jazz", "tune.flac");
    assert_eq!(path_file_name(&joined), Some("tune.flac".to_string()));
}
