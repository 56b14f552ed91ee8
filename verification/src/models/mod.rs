//! Songs and the folders (playlists) that hold them.
pub mod folder;
pub mod song;

pub use folder::Folder;
pub use song::Song;
