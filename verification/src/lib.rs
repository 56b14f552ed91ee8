//! Verified core of a folder-based music player: paths and file-name rules,
//! songs and folders, the playback state machine, library search and the
//! formatting helpers that the interface shows.
pub mod audio;
pub mod error;
pub mod format;
pub mod library;
pub mod models;
pub mod order;
pub mod paths;
pub mod player;
pub mod settings;
pub mod sorting;
pub mod text;
pub mod ui;
