//! The settings the player keeps that hold no fractional numbers: the
//! library settings, the theme and the repeat mode, and where the settings
//! file lives.
use vstd::prelude::*;
use crate::paths::{join_path, joined};

verus! {

/// The colour theme.
#[derive(Debug, Clone, Copy, PartialEq, Eq)]
pub enum Theme {
    Light,
    Dark,
    Auto,
}

/// What plays again when a song ends.
#[derive(Debug, Clone, Copy, PartialEq, Eq)]
pub enum RepeatMode {
    /// Nothing repeats (shown as "None").
    Off,
    Track,
    Playlist,
}

impl Theme {
    /// The theme's name as shown.
    pub fn name(&self) -> (s: String)
        ensures
            s@ == match *self {
                Theme::Light => "Light"@,
                Theme::Dark => "Dark"@,
                Theme::Auto => "Auto"@,
            },
    {
        match self {
            Theme::Light => String::from_str("Light"),
            Theme::Dark => String::from_str("Dark"),
            Theme::Auto => String::from_str("Auto"),
        }
    }
}

impl RepeatMode {
    /// The mode's name as shown.
    pub fn name(&self) -> (s: String)
        ensures
            s@ == match *self {
                RepeatMode::Off => "None"@,
                RepeatMode::Track => "Track"@,
                RepeatMode::Playlist => "Playlist"@,
            },
    {
        match self {
            RepeatMode::Off => String::from_str("None"),
            RepeatMode::Track => String::from_str("Track"),
            RepeatMode::Playlist => String::from_str("Playlist"),
        }
    }
}

/// Where the library looks for music and how it scans.
#[derive(Debug)]
pub struct LibrarySettings {
    pub music_directories: Vec<String>,
    pub auto_scan: bool,
    pub scan_interval_hours: u32,
    pub watch_folders: bool,
    pub supported_formats: Vec<String>,
}

/// The music directory used when none is configured: the user's audio
/// directory if known, else `Music` under the home directory if known,
/// else the current directory.
pub open spec fn default_music_dir_of(audio: Option<Seq<char>>, home: Option<Seq<char>>) -> Seq<
    char,
> {
    match audio {
        Some(a) => a,
        None => match home {
            Some(h) => joined(h, "Music"@),
            None => "."@,
        },
    }
}

/// The formats the library takes by default, in this order.
pub open spec fn default_formats() -> Seq<Seq<char>> {
    seq!["mp3"@, "wav"@, "ogg"@, "flac"@, "m4a"@, "aac"@, "wma"@, "mp4"@]
}

/// The music directory from the user's audio and home directories (see
/// `default_music_dir_of`).
pub fn default_music_dir(audio: Option<String>, home: Option<String>) -> (r: String)
    ensures
        r@ == default_music_dir_of(text_view(audio), text_view(home)),
{
    match audio {
        Some(a) => a,
        None => match home {
            Some(h) => join_path(h.as_str(), "Music"),
            None => String::from_str("."),
        },
    }
}

/// The settings file inside the configuration directory `config_dir`:
/// `rustify/settings.json` under it.
pub fn settings_file_path(config_dir: &str) -> (r: String)
    ensures
        r@ == joined(joined(config_dir@, "rustify"@), "settings.json"@),
{
    let dir = join_path(config_dir, "rustify");
    join_path(dir.as_str(), "settings.json")
}

/// The option's text, as a sequence of characters.
pub open spec fn text_view(o: Option<String>) -> Option<Seq<char>> {
    match o {
        Some(t) => Some(t@),
        None => None,
    }
}

impl LibrarySettings {
    /// The default settings for a user whose audio and home directories are
    /// `audio` and `home` (where known): one music directory, found as
    /// `default_music_dir` says; scans automatically every 24 hours and
    /// watches folders; takes the eight audio formats.
    pub fn from_user_dirs(audio: Option<String>, home: Option<String>) -> (s: Self)
        ensures
            s.music_directories.len() == 1,
            s.music_directories@[0]@ == default_music_dir_of(text_view(audio), text_view(home)),
            s.auto_scan,
            s.scan_interval_hours == 24,
            s.watch_folders,
            s.supported_formats.len() == 8,
            forall|i: int|
                0 <= i < 8 ==> #[trigger] s.supported_formats@[i]@ == default_formats()[i],
    {
        let dir = default_music_dir(audio, home);
        let mut dirs: Vec<String> = Vec::new();
        dirs.push(dir);
        let mut formats: Vec<String> = Vec::new();
        formats.push(String::from_str("mp3"));
        formats.push(String::from_str("wav"));
        formats.push(String::from_str("ogg"));
        formats.push(String::from_str("flac"));
        formats.push(String::from_str("m4a"));
        formats.push(String::from_str("aac"));
        formats.push(String::from_str("wma"));
        formats.push(String::from_str("mp4"));
        LibrarySettings {
            music_directories: dirs,
            auto_scan: true,
            scan_interval_hours: 24,
            watch_folders: true,
            supported_formats: formats,
        }
    }
}

} // verus!
