//! A song: a file path and the file name shown for it.
use vstd::prelude::*;
use crate::order::{keys_lt, lemma_orders_strict_total, lex_lt, str_lt, str_order, str_precedes};
use crate::paths::{extension, file_name, path_extension, path_file_name};
use crate::sorting::SortKey;
use crate::text::{chars_of, lowercase_of, to_lowercase};

verus! {

/// A song file.
#[derive(Debug)]
pub struct Song {
    /// Where the file is.
    pub path: String,
    /// The file name, as shown.
    pub name: String,
}

impl Clone for Song {
    fn clone(&self) -> (r: Self)
        ensures
            r == *self,
    {
        Song { path: self.path.clone(), name: self.name.clone() }
    }
}

/// The file name of `path`, or the empty string when it has none.
pub open spec fn name_for_path(path: Seq<char>) -> Seq<char> {
    match file_name(path) {
        Some(n) => n,
        None => Seq::empty(),
    }
}

/// The extensions, in lower case, of the files a folder takes as songs.
pub open spec fn is_song_extension(e: Seq<char>) -> bool {
    e == "mp3"@ || e == "wav"@ || e == "ogg"@ || e == "flac"@ || e == "m4a"@ || e == "aac"@
        || e == "wma"@ || e == "mp4"@
}

/// A path whose extension, in lower case, is that of a song file.
pub open spec fn is_song_path(path: Seq<char>) -> bool {
    match extension(path) {
        Some(e) => is_song_extension(lowercase_of(e)),
        None => false,
    }
}

/// `s` is the song that `Song::new` makes of `path`.
pub open spec fn is_song_of(s: Song, path: Seq<char>) -> bool {
    s.path@ == path && s.name@ == name_for_path(path)
}

/// A path is taken as a song exactly when it has an extension whose
/// lower-case form is one of mp3, wav, ogg, flac, m4a, aac, wma and mp4.
pub proof fn lemma_song_files_by_extension(path: Seq<char>)
    ensures
        is_song_path(path) <==> (extension(path) is Some && ({
            let e = lowercase_of(extension(path)->0);
            e == "mp3"@ || e == "wav"@ || e == "ogg"@ || e == "flac"@ || e == "m4a"@ || e == "aac"@
                || e == "wma"@ || e == "mp4"@
        })),
{
}

impl Song {
    /// The song at `path`, named by the path's file name (empty if it has
    /// none).
    pub fn new(path: String) -> (s: Song)
        ensures
            is_song_of(s, path@),
    {
        let name = match path_file_name(path.as_str()) {
            Some(n) => n,
            None => String::new(),
        };
        Song { path, name }
    }

    /// Whether `path` has the extension of a supported song format
    /// (`mp3`, `wav`, `ogg`, `flac`, `m4a`, `aac`, `wma`, `mp4`, in any case).
    pub fn is_supported_format(path: &str) -> (r: bool)
        ensures
            r == is_song_path(path@),
    {
        match path_extension(path) {
            Some(ext) => Self::is_song_extension_name(&to_lowercase(ext.as_str())),
            None => false,
        }
    }

    /// Whether the lower-case extension `ext` is one of `mp3`, `wav`,
    /// `ogg`, `flac`, `m4a`, `aac`, `wma`, `mp4`.
    pub fn is_song_extension_name(ext: &String) -> (r: bool)
        ensures
            r == is_song_extension(ext@),
    {
        let mp3 = String::from_str("mp3");
        let wav = String::from_str("wav");
        let ogg = String::from_str("ogg");
        let flac = String::from_str("flac");
        let m4a = String::from_str("m4a");
        let aac = String::from_str("aac");
        let wma = String::from_str("wma");
        let mp4 = String::from_str("mp4");
        *ext == mp3 || *ext == wav || *ext == ogg || *ext == flac || *ext == m4a || *ext == aac
            || *ext == wma || *ext == mp4
    }
}

impl SortKey for Song {
    open spec fn sort_key(&self) -> Seq<Seq<char>> {
        seq![self.name@]
    }

    fn key_precedes(&self, other: &Self) -> (r: bool) {
        let a = chars_of(self.name.as_str());
        let b = chars_of(other.name.as_str());
        let r = str_precedes(&a, &b);
        proof {
            let ka = seq![self.name@];
            let kb = seq![other.name@];
            assert(ka.drop_first() =~= Seq::<Seq<char>>::empty());
            assert(kb.drop_first() =~= Seq::<Seq<char>>::empty());
            lemma_orders_strict_total();
            assert(!str_order()(self.name@, self.name@));
            reveal_with_fuel(lex_lt, 2);
            assert(keys_lt(ka, kb) == str_lt(self.name@, other.name@));
        }
        r
    }
}

} // verus!
