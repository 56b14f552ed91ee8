//! The decisions the interface makes: the search over folders and songs,
//! the library totals and active folder of the sidebar, the drop of a
//! dragged song on a folder, and the play/pause button.
use vstd::prelude::*;
use crate::models::folder::Folder;
use crate::models::song::Song;
use crate::player::{total_songs, MusicPlayer};
use crate::text::{lemma_occurs_in_trans, lowercase_of, occurs_in, str_contains, to_lowercase};
pub use crate::format::UiHelpers;

verus! {

/// The search box: the text typed into it.
#[derive(Debug)]
pub struct SearchBar {
    search_text: String,
}

impl View for SearchBar {
    type V = Seq<char>;

    closed spec fn view(&self) -> Seq<char> {
        self.search_text@
    }
}

impl Default for SearchBar {
    fn default() -> (s: Self)
        ensures
            s@ == Seq::<char>::empty(),
    {
        SearchBar { search_text: String::new() }
    }
}

/// The views of a list of strings.
pub open spec fn string_views(v: Seq<String>) -> Seq<Seq<char>> {
    v.map_values(|s: String| s@)
}

/// The lower-case names of `songs`.
pub open spec fn lowered_names(songs: Seq<Song>) -> Seq<Seq<char>> {
    songs.map_values(|s: Song| lowercase_of(s.name@))
}

/// The (folder, song) pairs, in folder `folder_index`, of the names among
/// `names` that hold `q`, in order.
pub open spec fn name_hits(names: Seq<Seq<char>>, folder_index: usize, q: Seq<char>) -> Seq<
    (usize, usize),
>
    decreases names.len(),
{
    if names.len() == 0 {
        Seq::empty()
    } else {
        let rest = name_hits(names.drop_last(), folder_index, q);
        if occurs_in(q, names.last()) {
            rest.push((folder_index, (names.len() - 1) as usize))
        } else {
            rest
        }
    }
}

/// The hits in one folder with name `name` and song names `names`: all its
/// songs when the name holds `q`, else the songs whose name holds it.
pub open spec fn lowered_hits(
    folder_index: usize,
    name: Seq<char>,
    names: Seq<Seq<char>>,
    q: Seq<char>,
) -> Seq<(usize, usize)> {
    if occurs_in(q, name) {
        Seq::new(names.len(), |j: int| (folder_index, j as usize))
    } else {
        name_hits(names, folder_index, q)
    }
}

/// The hits in one folder: all its songs when its lower-case name holds
/// `q`, else the songs whose lower-case name holds it.
pub open spec fn folder_hits(folder: Folder, folder_index: usize, q: Seq<char>) -> Seq<(usize, usize)> {
    lowered_hits(folder_index, lowercase_of(folder.name@), lowered_names(folder.songs@), q)
}

/// The hits of the search `q` over `folders`, folder by folder.
pub open spec fn search_hits(folders: Seq<Folder>, q: Seq<char>) -> Seq<(usize, usize)>
    decreases folders.len(),
{
    if folders.len() == 0 {
        Seq::empty()
    } else {
        search_hits(folders.drop_last(), q) + folder_hits(
            folders.last(),
            (folders.len() - 1) as usize,
            q,
        )
    }
}

/// Each hit among `names` is a song of folder `folder_index` at an index
/// below the number of names.
proof fn lemma_name_hits_in_range(names: Seq<Seq<char>>, folder_index: usize, q: Seq<char>, x: (usize, usize))
    requires
        name_hits(names, folder_index, q).contains(x),
    ensures
        exists|k: int| 0 <= k < names.len() && x == (folder_index, #[trigger] (k as usize)),
    decreases names.len(),
{
    let rest = name_hits(names.drop_last(), folder_index, q);
    if rest.contains(x) {
        lemma_name_hits_in_range(names.drop_last(), folder_index, q, x);
        let k = choose|k: int| 0 <= k < names.len() - 1 && x == (folder_index, #[trigger] (k as usize));
        assert(0 <= k < names.len() && x == (folder_index, k as usize));
    } else {
        let k = names.len() - 1;
        assert(x == (folder_index, k as usize));
    }
}

/// A name that holds `q2` holds every `q` that occurs in `q2`, so the hits
/// of `q2` among `names` are hits of `q`.
proof fn lemma_name_hits_narrow(names: Seq<Seq<char>>, folder_index: usize, q: Seq<char>, q2: Seq<char>)
    requires
        occurs_in(q, q2),
    ensures
        forall|x: (usize, usize)|
            #[trigger] name_hits(names, folder_index, q2).contains(x) ==> name_hits(names, folder_index, q).contains(x),
    decreases names.len(),
{
    if names.len() > 0 {
        lemma_name_hits_narrow(names.drop_last(), folder_index, q, q2);
        let rest = name_hits(names.drop_last(), folder_index, q);
        let rest2 = name_hits(names.drop_last(), folder_index, q2);
        let p = (folder_index, (names.len() - 1) as usize);
        if occurs_in(q2, names.last()) {
            lemma_occurs_in_trans(q, q2, names.last());
        }
        assert forall|x: (usize, usize)| #[trigger] name_hits(names, folder_index, q2).contains(x) implies name_hits(names, folder_index, q).contains(x) by {
            if rest2.contains(x) {
                assert(rest.contains(x));
                if occurs_in(q, names.last()) {
                    let i = choose|i: int| 0 <= i < rest.len() && rest[i] == x;
                    assert(rest.push(p)[i] == x);
                }
            } else {
                assert(x == p);
                assert(rest.push(p)[rest.len() as int] == p);
            }
        }
    }
}

/// The hits of `q2` in one folder are hits of `q` when `q` occurs in `q2`.
proof fn lemma_folder_hits_narrow(folder: Folder, folder_index: usize, q: Seq<char>, q2: Seq<char>)
    requires
        occurs_in(q, q2),
    ensures
        forall|x: (usize, usize)|
            #[trigger] folder_hits(folder, folder_index, q2).contains(x) ==> folder_hits(folder, folder_index, q).contains(x),
{
    let name = lowercase_of(folder.name@);
    let names = lowered_names(folder.songs@);
    let all = Seq::new(names.len(), |j: int| (folder_index, j as usize));
    lemma_name_hits_narrow(names, folder_index, q, q2);
    if occurs_in(q2, name) {
        lemma_occurs_in_trans(q, q2, name);
    } else if occurs_in(q, name) {
        assert forall|x: (usize, usize)| #[trigger] folder_hits(folder, folder_index, q2).contains(x) implies folder_hits(folder, folder_index, q).contains(x) by {
            lemma_name_hits_in_range(names, folder_index, q2, x);
            let k = choose|k: int| 0 <= k < names.len() && x == (folder_index, #[trigger] (k as usize));
            assert(all[k] == x);
        }
    }
}

/// A longer search never finds more: when `q` occurs in `q2`, every song
/// that the search `q2` finds over `folders` is also found by `q`.
pub proof fn lemma_longer_query_fewer_hits(folders: Seq<Folder>, q: Seq<char>, q2: Seq<char>)
    requires
        occurs_in(q, q2),
    ensures
        forall|x: (usize, usize)|
            #[trigger] search_hits(folders, q2).contains(x) ==> search_hits(folders, q).contains(x),
    decreases folders.len(),
{
    if folders.len() > 0 {
        let init = folders.drop_last();
        let fi = (folders.len() - 1) as usize;
        lemma_longer_query_fewer_hits(init, q, q2);
        lemma_folder_hits_narrow(folders.last(), fi, q, q2);
        let a = search_hits(init, q);
        let b = folder_hits(folders.last(), fi, q);
        let a2 = search_hits(init, q2);
        let b2 = folder_hits(folders.last(), fi, q2);
        assert forall|x: (usize, usize)| #[trigger] search_hits(folders, q2).contains(x) implies search_hits(folders, q).contains(x) by {
            assert(search_hits(folders, q2) == a2 + b2);
            assert(search_hits(folders, q) == a + b);
            let i = choose|i: int| 0 <= i < (a2 + b2).len() && (a2 + b2)[i] == x;
            if i < a2.len() {
                assert(a2[i] == x);
                assert(a2.contains(x));
                assert(a.contains(x));
                let j = choose|j: int| 0 <= j < a.len() && a[j] == x;
                assert((a + b)[j] == x);
            } else {
                assert(b2[i - a2.len()] == x);
                assert(b2.contains(x));
                assert(b.contains(x));
                let j = choose|j: int| 0 <= j < b.len() && b[j] == x;
                assert((a + b)[a.len() + j] == x);
            }
        }
    }
}

/// The hits among `names` are the songs of folder `folder_index` whose
/// name holds `q`.
proof fn lemma_name_hits_members(names: Seq<Seq<char>>, folder_index: usize, q: Seq<char>, x: (usize, usize))
    requires
        names.len() <= usize::MAX,
    ensures
        name_hits(names, folder_index, q).contains(x) <==> (x.0 == folder_index && x.1 < names.len()
            && occurs_in(q, names[x.1 as int])),
    decreases names.len(),
{
    if names.len() > 0 {
        let init = names.drop_last();
        let rest = name_hits(init, folder_index, q);
        let p = (folder_index, (names.len() - 1) as usize);
        lemma_name_hits_members(init, folder_index, q, x);
        if occurs_in(q, names.last()) {
            if rest.contains(x) {
                let i = choose|i: int| 0 <= i < rest.len() && rest[i] == x;
                assert(rest.push(p)[i] == x);
            }
            if x == p {
                assert(rest.push(p)[rest.len() as int] == p);
            }
            if rest.push(p).contains(x) && x != p {
                let i = choose|i: int| 0 <= i < rest.push(p).len() && rest.push(p)[i] == x;
                assert(i < rest.len());
                assert(rest[i] == x);
            }
        }
        if x.0 == folder_index && x.1 < names.len() - 1 {
            assert(init[x.1 as int] == names[x.1 as int]);
        }
    }
}

/// What the search `q` finds over `folders`: the song `x.1` of folder
/// `x.0`, where both exist, exactly when the folder's lower-case name holds
/// `q` or the song's lower-case name does (its path plays no part).
pub proof fn lemma_search_hits_members(folders: Seq<Folder>, q: Seq<char>, x: (usize, usize))
    requires
        folders.len() <= usize::MAX,
        forall|i: int| 0 <= i < folders.len() ==> (#[trigger] folders[i]).songs.len() <= usize::MAX,
    ensures
        search_hits(folders, q).contains(x) <==> (x.0 < folders.len() && x.1 < folders[x.0 as int].songs.len()
            && (occurs_in(q, lowercase_of(folders[x.0 as int].name@)) || occurs_in(
            q,
            lowercase_of(folders[x.0 as int].songs@[x.1 as int].name@),
        ))),
    decreases folders.len(),
{
    if folders.len() > 0 {
        let init = folders.drop_last();
        let fi = (folders.len() - 1) as usize;
        let f = folders.last();
        let a = search_hits(init, q);
        let b = folder_hits(f, fi, q);
        let names = lowered_names(f.songs@);
        assert(f == folders[fi as int]);
        assert(search_hits(folders, q) == a + b);
        lemma_search_hits_members(init, q, x);
        lemma_name_hits_members(names, fi, q, x);
        let all = Seq::new(names.len(), |j: int| (fi, j as usize));
        let in_b = x.0 == fi && x.1 < names.len() && (occurs_in(q, lowercase_of(f.name@))
            || occurs_in(q, names[x.1 as int]));
        assert(b.contains(x) <==> in_b) by {
            if occurs_in(q, lowercase_of(f.name@)) {
                if x.0 == fi && x.1 < names.len() {
                    assert(all[x.1 as int] == x);
                }
                if b.contains(x) {
                    let i = choose|i: int| 0 <= i < b.len() && b[i] == x;
                    assert(all[i] == x);
                }
            }
        }
        if x.0 < fi {
            assert(init[x.0 as int] == folders[x.0 as int]);
        }
        if a.contains(x) {
            let i = choose|i: int| 0 <= i < a.len() && a[i] == x;
            assert((a + b)[i] == x);
        }
        if b.contains(x) {
            let i = choose|i: int| 0 <= i < b.len() && b[i] == x;
            assert((a + b)[a.len() + i] == x);
        }
        if (a + b).contains(x) {
            let i = choose|i: int| 0 <= i < (a + b).len() && (a + b)[i] == x;
            if i < a.len() {
                assert(a[i] == x);
            } else {
                assert(b[i - a.len()] == x);
            }
        }
    }
}

impl SearchBar {
    /// The text typed so far.
    pub fn get_search_text(&self) -> (r: &str)
        ensures
            r@ == self@,
    {
        self.search_text.as_str()
    }

    /// Whether a search is under way: some text is typed.
    pub fn is_searching(&self) -> (r: bool)
        ensures
            r == (self@.len() > 0),
    {
        self.search_text.as_str().unicode_len() > 0
    }

    /// Replaces the typed text.
    pub fn set_search_text(&mut self, text: String)
        ensures
            final(self)@ == text@,
    {
        self.search_text = text;
    }

    /// Empties the typed text.
    pub fn clear(&mut self)
        ensures
            final(self)@ == Seq::<char>::empty(),
    {
        self.search_text = String::new();
    }

    /// The hits of the search `lower_query` in folder `folder_index`, given
    /// the lower-case forms of the folder's name and of its songs' names
    /// (see `lowered_hits`).
    pub fn hits_in_folder(
        folder_index: usize,
        lower_name: &str,
        lower_songs: &Vec<String>,
        lower_query: &str,
    ) -> (r: Vec<(usize, usize)>)
        ensures
            r@ == lowered_hits(folder_index, lower_name@, string_views(lower_songs@), lower_query@),
    {
        let ghost names = string_views(lower_songs@);
        let mut results: Vec<(usize, usize)> = Vec::new();
        if str_contains(lower_name, lower_query) {
            let mut j: usize = 0;
            while j < lower_songs.len()
                invariant
                    j <= lower_songs.len(),
                    results@ == Seq::new(j as nat, |k: int| (folder_index, k as usize)),
                decreases lower_songs.len() - j,
            {
                results.push((folder_index, j));
                j = j + 1;
                assert(results@ =~= Seq::new(j as nat, |k: int| (folder_index, k as usize)));
            }
            assert(names.len() == lower_songs.len());
        } else {
            let mut j: usize = 0;
            proof {
                assert(names.take(0) =~= Seq::<Seq<char>>::empty());
            }
            while j < lower_songs.len()
                invariant
                    j <= lower_songs.len(),
                    names == string_views(lower_songs@),
                    results@ == name_hits(names.take(j as int), folder_index, lower_query@),
                decreases lower_songs.len() - j,
            {
                proof {
                    assert(names.take(j + 1).drop_last() =~= names.take(j as int));
                    assert(names.take(j + 1).last() == lower_songs@[j as int]@);
                }
                if str_contains(lower_songs[j].as_str(), lower_query) {
                    results.push((folder_index, j));
                }
                j = j + 1;
            }
            proof {
                assert(names.take(lower_songs.len() as int) =~= names);
            }
        }
        results
    }

    /// The songs of `player` that the typed text finds, as (folder, song)
    /// pairs in folder order: every song of a folder whose name holds the
    /// text, and in other folders the songs whose name holds it; case is
    /// ignored.
    pub fn filter_songs(&self, player: &MusicPlayer) -> (r: Vec<(usize, usize)>)
        ensures
            r@ == search_hits(player.folders@, lowercase_of(self@)),
    {
        let search_lower = to_lowercase(self.search_text.as_str());
        let ghost q = lowercase_of(self@);
        let mut results: Vec<(usize, usize)> = Vec::new();
        let mut fi: usize = 0;
        proof {
            assert(player.folders@.take(0) =~= Seq::<Folder>::empty());
        }
        while fi < player.folders.len()
            invariant
                fi <= player.folders.len(),
                search_lower@ == q,
                results@ == search_hits(player.folders@.take(fi as int), q),
            decreases player.folders.len() - fi,
        {
            let folder = &player.folders[fi];
            proof {
                assert(player.folders@.take(fi + 1).drop_last() =~= player.folders@.take(fi as int));
            }
            let folder_lower = to_lowercase(folder.name.as_str());
            let mut lower_songs: Vec<String> = Vec::new();
            let mut j: usize = 0;
            while j < folder.songs.len()
                invariant
                    j <= folder.songs.len(),
                    string_views(lower_songs@) =~= lowered_names(folder.songs@.take(j as int)),
                decreases folder.songs.len() - j,
            {
                let ghost before = lower_songs@;
                let lowered = to_lowercase(folder.songs[j].name.as_str());
                lower_songs.push(lowered);
                proof {
                    assert(string_views(lower_songs@) =~= string_views(before).push(lowered@));
                    assert(folder.songs@.take(j + 1) =~= folder.songs@.take(j as int).push(
                        folder.songs@[j as int],
                    ));
                    assert(lowered_names(folder.songs@.take(j + 1)) =~= lowered_names(
                        folder.songs@.take(j as int),
                    ).push(lowercase_of(folder.songs@[j as int].name@)));
                }
                j = j + 1;
            }
            assert(folder.songs@.take(folder.songs.len() as int) =~= folder.songs@);
            let mut hits = Self::hits_in_folder(
                fi,
                folder_lower.as_str(),
                &lower_songs,
                search_lower.as_str(),
            );
            results.append(&mut hits);
            fi = fi + 1;
        }
        proof {
            assert(player.folders@.take(player.folders.len() as int) =~= player.folders@);
        }
        results
    }

    /// What the search box shows under it: nothing while no text is typed,
    /// the songs found otherwise.
    pub fn results(&self, player: &MusicPlayer) -> (r: Vec<(usize, usize)>)
        ensures
            self@.len() == 0 ==> r@.len() == 0,
            self@.len() > 0 ==> r@ == search_hits(player.folders@, lowercase_of(self@)),
    {
        if !self.is_searching() {
            Vec::new()
        } else {
            self.filter_songs(player)
        }
    }
}

/// The main three-panel layout.
#[derive(Debug)]
pub struct SpotifyLayout;

impl Default for SpotifyLayout {
    fn default() -> (l: Self)
        ensures
            l == SpotifyLayout,
    {
        SpotifyLayout
    }
}

impl SpotifyLayout {
    /// The sidebar's library statistics: how many folders and how many
    /// songs in all.
    pub fn library_totals(player: &MusicPlayer) -> (r: (usize, usize))
        requires
            total_songs(player.folders@) <= usize::MAX,
        ensures
            r.0 == player.folders.len(),
            r.1 == total_songs(player.folders@),
    {
        let mut total: usize = 0;
        let mut i: usize = 0;
        proof {
            assert(player.folders@.take(0) =~= Seq::<Folder>::empty());
        }
        while i < player.folders.len()
            invariant
                i <= player.folders.len(),
                total_songs(player.folders@) <= usize::MAX,
                total == total_songs(player.folders@.take(i as int)),
            decreases player.folders.len() - i,
        {
            proof {
                assert(player.folders@.take(i + 1).drop_last() =~= player.folders@.take(i as int));
                lemma_total_songs_prefix(player.folders@, i as int + 1);
            }
            total = total + player.folders[i].songs.len();
            i = i + 1;
        }
        proof {
            assert(player.folders@.take(player.folders.len() as int) =~= player.folders@);
        }
        (player.folders.len(), total)
    }

    /// Whether the sidebar marks folder `folder_index` as active: the
    /// current folder exists and has the same name.
    pub fn is_active_folder(player: &MusicPlayer, folder_index: usize) -> (r: bool)
        requires
            folder_index < player.folders.len(),
        ensures
            r == match player.current_folder_index {
                Some(idx) => idx < player.folders.len() && player.folders@[idx as int].name@
                    == player.folders@[folder_index as int].name@,
                None => false,
            },
    {
        match player.current_folder_index {
            Some(idx) => idx < player.folders.len() && player.folders[idx].name
                == player.folders[folder_index].name,
            None => false,
        }
    }
}

proof fn lemma_total_songs_prefix(folders: Seq<Folder>, n: int)
    requires
        0 <= n <= folders.len(),
    ensures
        total_songs(folders.take(n)) <= total_songs(folders),
    decreases folders.len(),
{
    if n < folders.len() {
        assert(folders.drop_last().take(n) =~= folders.take(n));
        lemma_total_songs_prefix(folders.drop_last(), n);
    } else {
        assert(folders.take(n) =~= folders);
    }
}

/// The list of folders and their songs.
#[derive(Debug)]
pub struct SongList;

impl SongList {
    /// What a release of the pointer does to folder `folder_index` while a
    /// song is dragged: over an expanded folder's header it asks to move
    /// the dragged song there, and any release on an expanded folder ends
    /// the drag. Gives the move (from folder, song, to folder), if any, and
    /// whether the drag ends.
    pub fn drop_on_folder(
        dragged: Option<(usize, usize)>,
        expanded: bool,
        released: bool,
        hovered: bool,
        folder_index: usize,
    ) -> (r: (Option<(usize, usize, usize)>, bool))
        ensures
            r == match dragged {
                Some((f, s)) => if expanded && released {
                    (if hovered { Some((f, s, folder_index)) } else { None }, true)
                } else {
                    (None, false)
                },
                None => (None, false),
            },
    {
        match dragged {
            Some((f, s)) => {
                if expanded && released {
                    let action = if hovered {
                        Some((f, s, folder_index))
                    } else {
                        None
                    };
                    (action, true)
                } else {
                    (None, false)
                }
            },
            None => (None, false),
        }
    }
}

/// What the play/pause button did.
#[derive(Debug, Clone, Copy, PartialEq, Eq)]
pub enum PlayPause {
    /// Playback was paused; the caller pauses the output.
    Paused,
    /// Playback resumed; the caller starts the output again.
    Resumed,
    /// Nothing was current, so nothing happened.
    Unchanged,
}

/// The player bar's controls.
#[derive(Debug)]
pub struct Controls;

impl Controls {
    /// The play/pause button at `now`: pauses while playing, resumes when a
    /// song is current, does nothing otherwise.
    pub fn play_pause(player: &mut MusicPlayer, now: u64) -> (r: PlayPause)
        requires
            !old(player).is_playing && old(player).current_song is Some
                && old(player).song_start_time is Some ==> now >= old(player).current_position,
        ensures
            old(player).is_playing ==> r == PlayPause::Paused && *final(player) == (MusicPlayer {
                is_playing: false,
                ..*old(player)
            }),
            !old(player).is_playing && old(player).current_song is Some ==> r == PlayPause::Resumed
                && *final(player) == (MusicPlayer {
                is_playing: true,
                song_start_time: match old(player).song_start_time {
                    Some(_) => Some((now - old(player).current_position) as u64),
                    None => None,
                },
                ..*old(player)
            }),
            !old(player).is_playing && old(player).current_song is None ==> r == PlayPause::Unchanged
                && *final(player) == *old(player),
    {
        if player.is_playing {
            player.pause();
            PlayPause::Paused
        } else if player.current_song.is_some() {
            player.resume(now);
            PlayPause::Resumed
        } else {
            PlayPause::Unchanged
        }
    }
}

} // verus!
