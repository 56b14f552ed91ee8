//! The track library: tracks read from audio file paths, search over title,
//! artist and album, and the library's update after a directory scan.
use vstd::prelude::*;
use crate::audio::{is_audio_file, is_audio_path};
use crate::order::{keys_lt, lemma_orders_strict_total, lex_lt, str_lt, str_order, str_precedes};
use crate::paths::{
    chars_between, extension, file_stem, parent_name, path_extension, path_file_stem,
    path_parent_name, path_starts_with, paths_equal, same_path, starts_with_path, string_from_chars,
};
use crate::sorting::{is_stable_sort_of, sorted_by_key, stable_sort, SortKey};
use crate::text::{
    chars_of, find_chars, is_first_occurrence, lowercase_of, occurs_in, str_contains, to_lowercase,
    to_uppercase, uppercase_of,
};

verus! {

/// An audio file in the library.
#[derive(Debug)]
pub struct Track {
    pub path: String,
    pub title: String,
    pub artist: String,
    pub album: String,
    pub file_size: u64,
    /// The file's extension in upper case.
    pub format: String,
}

impl Clone for Track {
    fn clone(&self) -> (r: Self)
        ensures
            r == *self,
    {
        Track {
            path: self.path.clone(),
            title: self.title.clone(),
            artist: self.artist.clone(),
            album: self.album.clone(),
            file_size: self.file_size,
            format: self.format.clone(),
        }
    }
}

/// The separator between artist and title in a file name.
pub open spec fn artist_separator() -> Seq<char> {
    " - "@
}

/// `t` is the track read from the audio file at `path` of `size` bytes:
/// a stem "Artist - Title" (split at the first " - ") gives artist and
/// title, any other stem is the title of "Unknown Artist"; the album is the
/// name of the file's directory, "Unknown Album" without one; the format is
/// the extension in upper case.
pub open spec fn is_track_of(t: Track, path: Seq<char>, size: u64) -> bool {
    let stem = file_stem(path)->0;
    &&& t.path@ == path
    &&& t.file_size == size
    &&& t.format@ == uppercase_of(extension(path)->0)
    &&& if occurs_in(artist_separator(), stem) {
        exists|i: int|
            is_first_occurrence(artist_separator(), stem, i) && t.artist@ == stem.take(i)
                && t.title@ == stem.skip(i + artist_separator().len())
    } else {
        t.artist@ == "Unknown Artist"@ && t.title@ == stem
    }
    &&& t.album@ == match parent_name(path) {
        Some(n) => n,
        None => "Unknown Album"@,
    }
}

/// A search `q` matches `t`: `q` is empty, or its lower-case form occurs in
/// the lower-case title, artist or album.
pub open spec fn track_matches(t: Track, q: Seq<char>) -> bool {
    q.len() == 0 || occurs_in(lowercase_of(q), lowercase_of(t.title@)) || occurs_in(
        lowercase_of(q),
        lowercase_of(t.artist@),
    ) || occurs_in(lowercase_of(q), lowercase_of(t.album@))
}

impl Track {
    /// The track for the file at `path`, whose size the caller read as
    /// `file_size` (`None` when that failed); `None` when `path` is not an
    /// audio file or its size is unknown.
    pub fn from_path(path: &str, file_size: Option<u64>) -> (r: Option<Track>)
        ensures
            match r {
                Some(t) => is_audio_path(path@) && file_size == Some(t.file_size) && is_track_of(
                    t,
                    path@,
                    t.file_size,
                ),
                None => !is_audio_path(path@) || file_size is None,
            },
    {
        if !is_audio_file(path) {
            return None;
        }
        let stem = match path_file_stem(path) {
            Some(s) => s,
            None => return None,
        };
        let ext = match path_extension(path) {
            Some(e) => e,
            None => return None,
        };
        let size = match file_size {
            Some(n) => n,
            None => return None,
        };
        let stem_chars = chars_of(stem.as_str());
        let sep = chars_of(" - ");
        let (artist, title) = match find_chars(&stem_chars, &sep) {
            Some(i) => {
                assert(is_first_occurrence(sep@, stem_chars@, i as int));
                let end = stem_chars.len();
                let sep_len = sep.len();
                assert(i + sep_len <= end);
                let a = chars_between(&stem_chars, 0, i);
                let t = chars_between(&stem_chars, i + sep_len, end);
                assert(a@ =~= stem@.take(i as int));
                assert(t@ =~= stem@.skip(i + sep.len()));
                (string_from_chars(&a), string_from_chars(&t))
            },
            None => (String::from_str("Unknown Artist"), stem.clone()),
        };
        let album = match path_parent_name(path) {
            Some(n) => n,
            None => String::from_str("Unknown Album"),
        };
        let format = to_uppercase(ext.as_str());
        Some(Track { path: String::from_str(path), title, artist, album, file_size: size, format })
    }

    /// Whether the search `query` matches this track (see `track_matches`).
    pub fn matches_search(&self, query: &str) -> (r: bool)
        ensures
            r == track_matches(*self, query@),
    {
        if query.unicode_len() == 0 {
            return true;
        }
        let q = to_lowercase(query);
        let title = to_lowercase(self.title.as_str());
        let artist = to_lowercase(self.artist.as_str());
        let album = to_lowercase(self.album.as_str());
        Self::fields_contain(title.as_str(), artist.as_str(), album.as_str(), q.as_str())
    }

    /// Whether `needle` occurs in the title, the artist or the album given
    /// (the search compares their lower-case forms this way).
    pub fn fields_contain(title: &str, artist: &str, album: &str, needle: &str) -> (r: bool)
        ensures
            r == (occurs_in(needle@, title@) || occurs_in(needle@, artist@) || occurs_in(
                needle@,
                album@,
            )),
    {
        str_contains(title, needle) || str_contains(artist, needle) || str_contains(album, needle)
    }
}

impl SortKey for Track {
    open spec fn sort_key(&self) -> Seq<Seq<char>> {
        seq![self.artist@, self.album@, self.title@]
    }

    fn key_precedes(&self, other: &Self) -> (r: bool) {
        proof {
            lemma_orders_strict_total();
            assert(!str_order()(self.artist@, self.artist@));
            assert(!str_order()(self.album@, self.album@));
            assert(!str_order()(self.title@, self.title@));
            reveal_with_fuel(lex_lt, 4);
            let ka = self.sort_key();
            let kb = other.sort_key();
            assert(ka.drop_first() =~= seq![self.album@, self.title@]);
            assert(kb.drop_first() =~= seq![other.album@, other.title@]);
            assert(ka.drop_first().drop_first() =~= seq![self.title@]);
            assert(kb.drop_first().drop_first() =~= seq![other.title@]);
            assert(ka.drop_first().drop_first().drop_first() =~= Seq::<Seq<char>>::empty());
            assert(kb.drop_first().drop_first().drop_first() =~= Seq::<Seq<char>>::empty());
        }
        let a1 = chars_of(self.artist.as_str());
        let a2 = chars_of(other.artist.as_str());
        if str_precedes(&a1, &a2) {
            return true;
        }
        if self.artist != other.artist {
            return false;
        }
        let b1 = chars_of(self.album.as_str());
        let b2 = chars_of(other.album.as_str());
        if str_precedes(&b1, &b2) {
            return true;
        }
        if self.album != other.album {
            return false;
        }
        let c1 = chars_of(self.title.as_str());
        let c2 = chars_of(other.title.as_str());
        str_precedes(&c1, &c2)
    }
}

/// Comparing the sort keys of two tracks compares their artists, then, for
/// equal artists, their albums, then, for equal albums, their titles.
proof fn lemma_track_keys_lt(a: Track, b: Track)
    ensures
        keys_lt(a.sort_key(), b.sort_key()) == (str_lt(a.artist@, b.artist@) || (a.artist@
            == b.artist@ && (str_lt(a.album@, b.album@) || (a.album@ == b.album@ && str_lt(
            a.title@,
            b.title@,
        ))))),
{
    reveal_with_fuel(lex_lt, 4);
    let ka = a.sort_key();
    let kb = b.sort_key();
    assert(ka.drop_first() =~= seq![a.album@, a.title@]);
    assert(kb.drop_first() =~= seq![b.album@, b.title@]);
    assert(ka.drop_first().drop_first() =~= seq![a.title@]);
    assert(kb.drop_first().drop_first() =~= seq![b.title@]);
    assert(ka.drop_first().drop_first().drop_first() =~= Seq::<Seq<char>>::empty());
    assert(kb.drop_first().drop_first().drop_first() =~= Seq::<Seq<char>>::empty());
}

/// After a scan the library is in order by artist, then album, then title:
/// of any two tracks, the later one never has an artist before the
/// earlier's, nor the same artist and an album before its album, nor the
/// same artist and album and a title before its title.
pub proof fn lemma_scan_orders_by_artist_album_title(
    before: Seq<Track>,
    dir: Seq<char>,
    found: Seq<Track>,
    after: Seq<Track>,
)
    requires
        is_stable_sort_of(after, outside_dir(before, dir) + found),
    ensures
        forall|i: int, j: int|
            0 <= i < j < after.len() ==> !(str_lt(#[trigger] after[j].artist@, #[trigger] after[i].artist@) || (
            after[j].artist@ == after[i].artist@ && (str_lt(after[j].album@, after[i].album@) || (
            after[j].album@ == after[i].album@ && str_lt(after[j].title@, after[i].title@))))),
{
    assert forall|i: int, j: int| 0 <= i < j < after.len() implies !(str_lt(
        #[trigger] after[j].artist@,
        #[trigger] after[i].artist@,
    ) || (after[j].artist@ == after[i].artist@ && (str_lt(after[j].album@, after[i].album@) || (
    after[j].album@ == after[i].album@ && str_lt(after[j].title@, after[i].title@))))) by {
        assert(sorted_by_key(after));
        assert(!keys_lt(after[j].sort_key(), after[i].sort_key()));
        lemma_track_keys_lt(after[j], after[i]);
    }
}

/// A search matches a track by the track's title, artist and album alone:
/// an empty query matches every track, and another matches exactly when its
/// lower-case form occurs in the lower-case title, artist or album.
pub proof fn lemma_search_reads_title_artist_album(t: Track, q: Seq<char>)
    ensures
        q.len() == 0 ==> track_matches(t, q),
        q.len() > 0 ==> (track_matches(t, q) <==> (occurs_in(lowercase_of(q), lowercase_of(t.title@))
            || occurs_in(lowercase_of(q), lowercase_of(t.artist@)) || occurs_in(
            lowercase_of(q),
            lowercase_of(t.album@),
        ))),
{
}

/// Two tracks with the same title, artist and album match the same searches,
/// whatever their paths, sizes and formats.
pub proof fn lemma_search_ignores_path(t1: Track, t2: Track, q: Seq<char>)
    requires
        t1.title@ == t2.title@,
        t1.artist@ == t2.artist@,
        t1.album@ == t2.album@,
    ensures
        track_matches(t1, q) == track_matches(t2, q),
{
}

/// The library: its tracks, whether a scan is under way, and the
/// directories it was asked to scan.
#[derive(Debug)]
pub struct MusicLibrary {
    pub tracks: Vec<Track>,
    pub is_scanning: bool,
    pub library_paths: Vec<String>,
}

/// The tracks of `tracks` that lie outside the directory `dir`.
pub open spec fn outside_dir(tracks: Seq<Track>, dir: Seq<char>) -> Seq<Track> {
    tracks.filter(|t: Track| !path_starts_with(t.path@, dir))
}

/// `paths` holds a path equal to `p`.
pub open spec fn knows_path(paths: Seq<String>, p: Seq<char>) -> bool {
    exists|i: int| 0 <= i < paths.len() && same_path(#[trigger] paths[i]@, p)
}

/// What starting a scan of `path` does: the library is scanning, its tracks
/// are untouched, and `path` is added to its directories unless an equal
/// path is there.
pub open spec fn scan_started(old: MusicLibrary, new: MusicLibrary, path: String) -> bool {
    &&& new.is_scanning
    &&& new.tracks == old.tracks
    &&& if knows_path(old.library_paths@, path@) {
        new.library_paths == old.library_paths
    } else {
        new.library_paths@ == old.library_paths@.push(path)
    }
}

/// Scanning a directory again does not list it twice: a second start of a
/// scan of the same path leaves the directories as the first left them.
pub proof fn lemma_rescan_keeps_directories(
    l0: MusicLibrary,
    l1: MusicLibrary,
    l2: MusicLibrary,
    path: String,
)
    requires
        scan_started(l0, l1, path),
        scan_started(l1, l2, path),
    ensures
        l2.library_paths == l1.library_paths,
{
    if !knows_path(l0.library_paths@, path@) {
        let i = l1.library_paths@.len() - 1;
        assert(l1.library_paths@[i] == path);
        assert(same_path(l1.library_paths@[i]@, path@));
    } else {
    }
}

impl MusicLibrary {
    /// An empty library, not scanning.
    pub fn new() -> (l: MusicLibrary)
        ensures
            l.tracks@.len() == 0,
            !l.is_scanning,
            l.library_paths@.len() == 0,
    {
        MusicLibrary { tracks: Vec::new(), is_scanning: false, library_paths: Vec::new() }
    }

    /// Starts a scan of `path`: remembers the directory, unless the same
    /// path is already there, and marks the library as scanning. The caller
    /// walks the directory and hands the tracks it found to `finish_scan`.
    pub fn scan_directory(&mut self, path: String)
        ensures
            scan_started(*old(self), *final(self), path),
    {
        let mut known = false;
        let mut i: usize = 0;
        while i < self.library_paths.len()
            invariant
                i <= self.library_paths.len(),
                known == exists|k: int|
                    0 <= k < i && same_path(#[trigger] self.library_paths@[k]@, path@),
            decreases self.library_paths.len() - i,
        {
            if paths_equal(self.library_paths[i].as_str(), path.as_str()) {
                known = true;
            }
            i = i + 1;
        }
        if !known {
            self.library_paths.push(path);
        }
        self.is_scanning = true;
    }

    /// Ends a scan of `path` with the tracks the walk `found`: the tracks
    /// under `path` are replaced by them, everything is sorted by artist,
    /// then album, then title (stably), and the library is no longer
    /// scanning.
    pub fn finish_scan(&mut self, path: &str, found: Vec<Track>)
        ensures
            !final(self).is_scanning,
            final(self).library_paths == old(self).library_paths,
            is_stable_sort_of(final(self).tracks@, outside_dir(old(self).tracks@, path@) + found@),
            forall|i: int, j: int|
                0 <= i < j < final(self).tracks.len() ==> !(str_lt(
                    #[trigger] final(self).tracks@[j].artist@,
                    #[trigger] final(self).tracks@[i].artist@,
                ) || (final(self).tracks@[j].artist@ == final(self).tracks@[i].artist@ && (str_lt(
                    final(self).tracks@[j].album@,
                    final(self).tracks@[i].album@,
                ) || (final(self).tracks@[j].album@ == final(self).tracks@[i].album@ && str_lt(
                    final(self).tracks@[j].title@,
                    final(self).tracks@[i].title@,
                ))))),
    {
        let ghost pred = |t: Track| !path_starts_with(t.path@, path@);
        let mut kept: Vec<Track> = Vec::new();
        let mut old_tracks: Vec<Track> = Vec::new();
        std::mem::swap(&mut old_tracks, &mut self.tracks);
        let ghost orig = old_tracks@;
        let mut i: usize = 0;
        proof {
            reveal_with_fuel(Seq::filter, 1);
            assert(orig.take(0) =~= Seq::<Track>::empty());
        }
        while i < old_tracks.len()
            invariant
                old_tracks@ == orig,
                i <= old_tracks.len(),
                pred == (|t: Track| !path_starts_with(t.path@, path@)),
                kept@ == orig.take(i as int).filter(pred),
            decreases old_tracks.len() - i,
        {
            proof {
                assert(orig.take(i + 1) =~= orig.take(i as int).push(orig[i as int]));
                orig.take(i as int).lemma_filter_push(orig[i as int], pred);
            }
            if !starts_with_path(old_tracks[i].path.as_str(), path) {
                kept.push(old_tracks[i].clone());
            }
            i = i + 1;
        }
        proof {
            assert(orig.take(orig.len() as int) =~= orig);
        }
        let ghost kept_view = kept@;
        let ghost found_view = found@;
        let mut found = found;
        kept.append(&mut found);
        self.tracks = stable_sort(kept);
        self.is_scanning = false;
        proof {
            lemma_scan_orders_by_artist_album_title(orig, path@, found_view, self.tracks@);
        }
    }

    /// The tracks that the search `search_query` matches, in library order.
    pub fn get_filtered_tracks(&self, search_query: &str) -> (r: Vec<Track>)
        ensures
            r@ == self.tracks@.filter(|t: Track| track_matches(t, search_query@)),
    {
        let ghost pred = |t: Track| track_matches(t, search_query@);
        let mut r: Vec<Track> = Vec::new();
        let mut i: usize = 0;
        proof {
            reveal_with_fuel(Seq::filter, 1);
            assert(self.tracks@.take(0) =~= Seq::<Track>::empty());
        }
        while i < self.tracks.len()
            invariant
                i <= self.tracks.len(),
                pred == (|t: Track| track_matches(t, search_query@)),
                r@ == self.tracks@.take(i as int).filter(pred),
            decreases self.tracks.len() - i,
        {
            proof {
                assert(self.tracks@.take(i + 1) =~= self.tracks@.take(i as int).push(
                    self.tracks@[i as int],
                ));
                self.tracks@.take(i as int).lemma_filter_push(self.tracks@[i as int], pred);
            }
            if self.tracks[i].matches_search(search_query) {
                r.push(self.tracks[i].clone());
            }
            i = i + 1;
        }
        proof {
            assert(self.tracks@.take(self.tracks.len() as int) =~= self.tracks@);
        }
        r
    }

    /// How many tracks the library holds.
    pub fn track_count(&self) -> (n: usize)
        ensures
            n == self.tracks.len(),
    {
        self.tracks.len()
    }

    /// Whether a scan is under way.
    pub fn is_scanning(&self) -> (r: bool)
        ensures
            r == self.is_scanning,
    {
        self.is_scanning
    }
}

} // verus!
