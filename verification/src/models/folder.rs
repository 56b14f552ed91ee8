//! A folder of songs, shown as a playlist.
use vstd::prelude::*;
use crate::models::song::{is_song_of, is_song_path, Song};
use crate::order::{keys_lt, lex_lt, str_lt};
use crate::sorting::{is_stable_sort_of, sorted_by_key, stable_sort, SortKey};

verus! {

/// A folder of songs.
#[derive(Debug)]
pub struct Folder {
    /// The name shown for the folder.
    pub name: String,
    /// Where the folder is.
    pub path: String,
    /// Its songs, sorted by name.
    pub songs: Vec<Song>,
    /// Whether its songs are shown.
    pub expanded: bool,
}

/// The paths of `files`, each as characters.
pub open spec fn file_paths(files: Seq<String>) -> Seq<Seq<char>> {
    files.map_values(|f: String| f@)
}

/// The paths among `paths` that have a song file's extension, in order.
pub open spec fn song_paths(paths: Seq<Seq<char>>) -> Seq<Seq<char>> {
    paths.filter(|p: Seq<char>| is_song_path(p))
}

/// `m` holds, position by position, the songs made of `paths`.
pub open spec fn are_songs_of(m: Seq<Song>, paths: Seq<Seq<char>>) -> bool {
    m.len() == paths.len() && forall|i: int| 0 <= i < m.len() ==> is_song_of(#[trigger] m[i], paths[i])
}

/// `songs` are the song files among `files`, sorted by name, files of the
/// same name kept in the order of `files`.
pub open spec fn songs_from(songs: Seq<Song>, files: Seq<String>) -> bool {
    exists|m: Seq<Song>| are_songs_of(m, song_paths(file_paths(files))) && is_stable_sort_of(songs, m)
}

/// No song of `songs` has a name before that of an earlier song: they are
/// in order by their whole names.
pub open spec fn in_name_order(songs: Seq<Song>) -> bool {
    forall|i: int, j: int|
        0 <= i < j < songs.len() ==> !str_lt(#[trigger] songs[j].name@, #[trigger] songs[i].name@)
}

/// Songs in sort order are in order by their whole names.
proof fn lemma_sorted_songs_in_name_order(songs: Seq<Song>)
    requires
        sorted_by_key(songs),
    ensures
        in_name_order(songs),
{
    assert forall|i: int, j: int| 0 <= i < j < songs.len() implies !str_lt(
        #[trigger] songs[j].name@,
        #[trigger] songs[i].name@,
    ) by {
        assert(!keys_lt(songs[j].sort_key(), songs[i].sort_key()));
        reveal_with_fuel(lex_lt, 2);
        assert(songs[j].sort_key().drop_first() =~= Seq::<Seq<char>>::empty());
        assert(songs[i].sort_key().drop_first() =~= Seq::<Seq<char>>::empty());
    }
}

/// A folder read from a directory lists its songs in order by their whole
/// names: of two songs, the later one's name never comes before the
/// earlier one's.
pub proof fn lemma_loaded_songs_in_name_order(songs: Seq<Song>, files: Seq<String>)
    requires
        songs_from(songs, files),
    ensures
        forall|i: int, j: int|
            0 <= i < j < songs.len() ==> !str_lt(#[trigger] songs[j].name@, #[trigger] songs[i].name@),
{
    let m = choose|m: Seq<Song>| are_songs_of(m, song_paths(file_paths(files))) && is_stable_sort_of(songs, m);
    lemma_sorted_songs_in_name_order(songs);
}

/// Adding a song keeps a folder's songs in order by their whole names,
/// whatever order they were in before.
pub proof fn lemma_added_song_in_name_order(before: Seq<Song>, song: Song, after: Seq<Song>)
    requires
        is_stable_sort_of(after, before.push(song)),
    ensures
        forall|i: int, j: int|
            0 <= i < j < after.len() ==> !str_lt(#[trigger] after[j].name@, #[trigger] after[i].name@),
{
    lemma_sorted_songs_in_name_order(after);
}

impl Folder {
    /// The songs of a directory whose regular files are `files`: the files
    /// with a supported extension, as songs, sorted by name.
    pub fn load_songs_from_dir(files: &Vec<String>) -> (songs: Vec<Song>)
        ensures
            songs_from(songs@, files@),
            in_name_order(songs@),
    {
        let ghost all = file_paths(files@);
        let ghost pred = |p: Seq<char>| is_song_path(p);
        let mut picked: Vec<Song> = Vec::new();
        let mut i: usize = 0;
        while i < files.len()
            invariant
                i <= files.len(),
                all == file_paths(files@),
                pred == (|p: Seq<char>| is_song_path(p)),
                are_songs_of(picked@, all.take(i as int).filter(pred)),
            decreases files.len() - i,
        {
            proof {
                assert(all.take(i + 1) =~= all.take(i as int).push(all[i as int]));
                all.take(i as int).lemma_filter_push(all[i as int], pred);
            }
            if Song::is_supported_format(files[i].as_str()) {
                let song = Song::new(files[i].clone());
                picked.push(song);
            }
            i = i + 1;
        }
        proof {
            assert(all.take(files.len() as int) =~= all);
        }
        let songs = stable_sort(picked);
        proof {
            lemma_sorted_songs_in_name_order(songs@);
        }
        songs
    }

    /// A collapsed folder named `name` at `path`, holding the songs among
    /// `files`, the regular files of the directory.
    pub fn new(path: String, name: String, files: &Vec<String>) -> (f: Folder)
        ensures
            f.path == path,
            f.name == name,
            !f.expanded,
            songs_from(f.songs@, files@),
            in_name_order(f.songs@),
    {
        let songs = Self::load_songs_from_dir(files);
        Folder { name, path, songs, expanded: false }
    }

    /// Adds `song` and sorts the songs by name again, stably.
    pub fn add_song(&mut self, song: Song)
        ensures
            final(self).name == old(self).name,
            final(self).path == old(self).path,
            final(self).expanded == old(self).expanded,
            is_stable_sort_of(final(self).songs@, old(self).songs@.push(song)),
            in_name_order(final(self).songs@),
    {
        let mut songs = Vec::new();
        std::mem::swap(&mut songs, &mut self.songs);
        songs.push(song);
        self.songs = stable_sort(songs);
        proof {
            lemma_sorted_songs_in_name_order(self.songs@);
        }
    }

    /// Removes and returns the song at `index`; `None`, with nothing changed,
    /// when there is no such song.
    pub fn remove_song(&mut self, index: usize) -> (r: Option<Song>)
        ensures
            final(self).name == old(self).name,
            final(self).path == old(self).path,
            final(self).expanded == old(self).expanded,
            index < old(self).songs.len() ==> r == Some(old(self).songs@[index as int])
                && final(self).songs@ == old(self).songs@.remove(index as int),
            index >= old(self).songs.len() ==> r is None && final(self).songs@ == old(
                self,
            ).songs@,
    {
        if index < self.songs.len() {
            Some(self.songs.remove(index))
        } else {
            None
        }
    }

    /// Shows or hides the folder's songs.
    pub fn toggle_expanded(&mut self)
        ensures
            final(self).expanded == !old(self).expanded,
            final(self).name == old(self).name,
            final(self).path == old(self).path,
            final(self).songs == old(self).songs,
    {
        self.expanded = !self.expanded;
    }

    /// Whether the folder has no songs.
    pub fn is_empty(&self) -> (r: bool)
        ensures
            r == (self.songs.len() == 0),
    {
        self.songs.len() == 0
    }

    /// How many songs the folder has.
    pub fn song_count(&self) -> (r: usize)
        ensures
            r == self.songs.len(),
    {
        self.songs.len()
    }
}

} // verus!
