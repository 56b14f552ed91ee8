//! The player's state: its folders, the current song, play/pause, the
//! playback position and the song being dragged, with the decisions that the
//! controls make on it. The audio output itself stays with the caller, who
//! performs the action each decision returns.
use vstd::prelude::*;
use crate::models::folder::{file_paths, song_paths, songs_from, Folder};
use crate::models::song::{is_song_of, Song};
use crate::paths::{file_name, is_plain_name, join_path, joined, lemma_joined_file_name, path_file_name};
use crate::sorting::{has_key, is_stable_sort_of, with_key, SortKey};

verus! {

/// What the caller has to do with the audio output after a decision.
#[derive(Debug)]
pub enum PlayerAction {
    /// Nothing.
    Nothing,
    /// Stop what plays and start the file at this path.
    Play(String),
    /// Stop what plays.
    Stop,
}

/// A subdirectory of the music directory: its path and its regular files.
#[derive(Debug)]
pub struct DirListing {
    pub path: String,
    pub files: Vec<String>,
}

/// The state of the music player. Times are in nanoseconds on the caller's
/// monotonic clock.
#[derive(Debug)]
pub struct MusicPlayer {
    pub folders: Vec<Folder>,
    pub current_song: Option<Song>,
    pub current_folder_index: Option<usize>,
    pub current_song_index: Option<usize>,
    pub is_playing: bool,
    /// When the current song started, shifted by any time spent paused.
    pub song_start_time: Option<u64>,
    /// How far into the current song playback is.
    pub current_position: u64,
    /// The (folder, song) being dragged, if any.
    pub dragged_song: Option<(usize, usize)>,
}

/// The files among `files` that a folder takes as songs, as a count.
pub open spec fn song_count_of(files: Seq<String>) -> nat {
    song_paths(file_paths(files)).len()
}

/// A listing with at least one song file.
pub open spec fn has_songs(d: DirListing) -> bool {
    song_count_of(d.files@) > 0
}

/// `f` is the folder made of the listing `d`: named by its directory name,
/// collapsed, holding its song files.
pub open spec fn is_folder_of(f: Folder, d: DirListing) -> bool {
    &&& f.path@ == d.path@
    &&& Some(f.name@) == file_name(d.path@)
    &&& !f.expanded
    &&& songs_from(f.songs@, d.files@)
}

/// The folder that holds the songs of the music directory itself.
pub open spec fn is_root_folder_of(f: Folder, music_dir: Seq<char>, files: Seq<String>) -> bool {
    &&& f.path@ == music_dir
    &&& f.name@ == "Music"@
    &&& f.expanded
    &&& songs_from(f.songs@, files)
}

proof fn lemma_songs_from_len(songs: Seq<Song>, files: Seq<String>)
    requires
        songs_from(songs, files),
    ensures
        songs.len() == song_count_of(files),
{
    let m = choose|m: Seq<Song>|
        crate::models::folder::are_songs_of(m, song_paths(file_paths(files))) && is_stable_sort_of(
            songs,
            m,
        );
}

/// The index of the first song named `name`.
pub open spec fn first_named(songs: Seq<Song>, name: Seq<char>, i: int) -> bool {
    0 <= i < songs.len() && songs[i].name@ == name && forall|j: int|
        0 <= j < i ==> (#[trigger] songs[j]).name@ != name
}

/// The move of song `song_index` from folder `from` to folder `to` names
/// existing, distinct folders and an existing song.
pub open spec fn valid_move(p: MusicPlayer, from: usize, song_index: usize, to: usize) -> bool {
    &&& from < p.folders.len()
    &&& to < p.folders.len()
    &&& from != to
    &&& song_index < p.folders[from as int].songs.len()
}

/// Where a moved song goes: its name joined to the target folder's path.
pub open spec fn moved_path(p: MusicPlayer, from: usize, song_index: usize, to: usize) -> Seq<
    char,
> {
    joined(p.folders[to as int].path@, p.folders[from as int].songs@[song_index as int].name@)
}

/// Folder `f` exists and has a song `s`.
pub open spec fn has_song_at(p: MusicPlayer, f: usize, s: usize) -> bool {
    f < p.folders.len() && s < p.folders[f as int].songs.len()
}

/// `new` is `old` with song `s` of folder `f` made the current song; the
/// playing flag and the times are untouched until playback starts.
pub open spec fn selects(old: MusicPlayer, new: MusicPlayer, f: usize, s: usize) -> bool {
    &&& new.folders == old.folders
    &&& new.current_song == Some(old.folders@[f as int].songs@[s as int])
    &&& new.current_folder_index == Some(f)
    &&& new.current_song_index == Some(s)
    &&& new.is_playing == old.is_playing
    &&& new.song_start_time == old.song_start_time
    &&& new.current_position == old.current_position
    &&& new.dragged_song == old.dragged_song
}

/// `new` is `old` stopped: nothing current, not playing, position zero.
pub open spec fn stopped(old: MusicPlayer, new: MusicPlayer) -> bool {
    &&& new.folders == old.folders
    &&& new.current_song is None
    &&& new.current_folder_index is None
    &&& new.current_song_index is None
    &&& !new.is_playing
    &&& new.song_start_time is None
    &&& new.current_position == 0
    &&& new.dragged_song == old.dragged_song
}

/// What `play_next_song` does from `old`: within the current folder, the
/// next song is selected and to be played, or, past the last song, playback
/// stops; without a current song in an existing folder nothing happens.
pub open spec fn next_song_step(old: MusicPlayer, new: MusicPlayer, a: PlayerAction) -> bool {
    match (old.current_folder_index, old.current_song_index) {
        (Some(f), Some(s)) => if f < old.folders.len() {
            if s + 1 < old.folders[f as int].songs.len() {
                &&& selects(old, new, f, (s + 1) as usize)
                &&& a matches PlayerAction::Play(path) && path@ == old.folders@[f as int].songs@[s
                    + 1].path@
            } else {
                stopped(old, new) && a is Stop
            }
        } else {
            new == old && a is Nothing
        },
        _ => new == old && a is Nothing,
    }
}

/// What `play_song(f, s)` does from `old`: with such a song, it becomes the
/// current one and its path is returned; otherwise nothing changes.
pub open spec fn play_song_step(
    old: MusicPlayer,
    new: MusicPlayer,
    f: usize,
    s: usize,
    r: Option<String>,
) -> bool {
    if has_song_at(old, f, s) {
        &&& selects(old, new, f, s)
        &&& r matches Some(path) && path@ == old.folders@[f as int].songs@[s as int].path@
    } else {
        new == old && r is None
    }
}

/// `p` paused.
pub open spec fn paused(p: MusicPlayer) -> MusicPlayer {
    MusicPlayer { is_playing: false, ..p }
}

/// `p` resumed at `now`: playing, with the start moved back by the position.
pub open spec fn resumed(p: MusicPlayer, now: u64) -> MusicPlayer {
    MusicPlayer {
        is_playing: true,
        song_start_time: match p.song_start_time {
            Some(_) => Some((now - p.current_position) as u64),
            None => None,
        },
        ..p
    }
}

/// `p` with its current song started at `now`.
pub open spec fn started(p: MusicPlayer, now: u64) -> MusicPlayer {
    MusicPlayer { is_playing: true, song_start_time: Some(now), current_position: 0, ..p }
}

/// `p` with the position brought to `now`: the time since the start.
pub open spec fn with_position(p: MusicPlayer, now: u64) -> MusicPlayer {
    MusicPlayer {
        current_position: match p.song_start_time {
            Some(start) => if now >= start { (now - start) as u64 } else { 0 },
            None => p.current_position,
        },
        ..p
    }
}

/// Song `s` of folder `f` is the current song and playing.
pub open spec fn is_current(p: MusicPlayer, f: usize, s: usize) -> bool {
    p.current_folder_index == Some(f) && p.current_song_index == Some(s) && p.is_playing
}

/// How the current song follows a move of song `song_index` from folder
/// `from_folder` to `to_folder`: when it was the moved song, it is now in the
/// target folder, at the first song of its name there (keeping its index if
/// none has that name); when it came after the moved song in the same
/// folder, its index drops by one; otherwise it stays.
pub open spec fn tracks_current(
    old: MusicPlayer,
    new: MusicPlayer,
    from_folder: usize,
    song_index: usize,
    to_folder: usize,
) -> bool {
    let new_to = new.folders@[to_folder as int];
    if old.current_folder_index == Some(from_folder) && old.current_song_index == Some(
        song_index,
    ) {
        let name = old.current_song->0.name@;
        &&& new.current_folder_index == Some(to_folder)
        &&& if exists|k: int| first_named(new_to.songs@, name, k) {
            new.current_song_index matches Some(k) && first_named(new_to.songs@, name, k as int)
        } else {
            new.current_song_index == Some(song_index)
        }
    } else if old.current_folder_index == Some(from_folder) && old.current_song_index is Some
        && old.current_song_index->0 > song_index {
        &&& new.current_folder_index == old.current_folder_index
        &&& new.current_song_index == Some((old.current_song_index->0 - 1) as usize)
    } else {
        &&& new.current_folder_index == old.current_folder_index
        &&& new.current_song_index == old.current_song_index
    }
}

/// What `move_song_to_folder` does (see there): nothing unless the move is
/// valid and the file was renamed; otherwise the song leaves its folder,
/// the song at its new path joins the target folder, sorted by name, and
/// the current song follows it.
pub open spec fn move_step(
    old: MusicPlayer,
    new: MusicPlayer,
    from_folder: usize,
    song_index: usize,
    to_folder: usize,
    renamed: bool,
) -> bool {
    &&& !(valid_move(old, from_folder, song_index, to_folder) && renamed) ==> new == old
    &&& valid_move(old, from_folder, song_index, to_folder) && renamed ==> {
        let old_from = old.folders@[from_folder as int];
        let old_to = old.folders@[to_folder as int];
        let new_from = new.folders@[from_folder as int];
        let new_to = new.folders@[to_folder as int];
        &&& new.folders.len() == old.folders.len()
        &&& forall|i: int|
            0 <= i < old.folders.len() && i != from_folder && i != to_folder
                ==> #[trigger] new.folders@[i] == old.folders@[i]
        &&& new_from.name == old_from.name && new_from.path == old_from.path
            && new_from.expanded == old_from.expanded
        &&& new_from.songs@ == old_from.songs@.remove(song_index as int)
        &&& new_to.name == old_to.name && new_to.path == old_to.path && new_to.expanded
            == old_to.expanded
        &&& exists|moved: Song|
            is_song_of(moved, moved_path(old, from_folder, song_index, to_folder))
                && is_stable_sort_of(new_to.songs@, old_to.songs@.push(moved))
        &&& new.current_song == old.current_song
        &&& new.is_playing == old.is_playing
        &&& new.song_start_time == old.song_start_time
        &&& new.current_position == old.current_position
        &&& new.dragged_song == old.dragged_song
        &&& tracks_current(old, new, from_folder, song_index, to_folder)
    }
}

/// The number of songs over all of `folders`.
pub open spec fn total_songs(folders: Seq<Folder>) -> nat
    decreases folders.len(),
{
    if folders.len() == 0 {
        0
    } else {
        total_songs(folders.drop_last()) + folders.last().songs@.len()
    }
}

proof fn lemma_total_songs_update(s: Seq<Folder>, i: int, f: Folder)
    requires
        0 <= i < s.len(),
    ensures
        total_songs(s.update(i, f)) == total_songs(s) - s[i].songs@.len() + f.songs@.len(),
    decreases s.len(),
{
    let u = s.update(i, f);
    if i == s.len() - 1 {
        assert(u.drop_last() =~= s.drop_last());
    } else {
        assert(u.drop_last() =~= s.drop_last().update(i, f));
        lemma_total_songs_update(s.drop_last(), i, f);
    }
}

/// Moving on to the next song never leaves the current folder: afterwards
/// the current folder is the one before, or playback stopped.
pub proof fn lemma_next_song_stays_in_folder(old: MusicPlayer, new: MusicPlayer, a: PlayerAction)
    requires
        next_song_step(old, new, a),
    ensures
        new.current_folder_index == old.current_folder_index || (new.current_folder_index is None
            && a is Stop),
{
}

/// Resuming carries the position on: after a resume at `now`, the position
/// at a later time `t` is the position at the pause plus the time since the
/// resume.
pub proof fn lemma_resume_continues_position(p: MusicPlayer, now: u64, t: u64)
    requires
        p.song_start_time is Some,
        p.current_position <= now <= t,
    ensures
        resumed(p, now).is_playing,
        with_position(resumed(p, now), t).current_position == p.current_position + (t - now),
{
}

/// A song that was chosen with `play_song` and then started is the song
/// the list marks as current and playing.
pub proof fn lemma_started_song_is_current(
    p: MusicPlayer,
    q: MusicPlayer,
    f: usize,
    s: usize,
    r: Option<String>,
    now: u64,
)
    requires
        play_song_step(p, q, f, s, r),
        r is Some,
    ensures
        is_current(started(q, now), f, s),
        started(q, now).current_song == Some(p.folders@[f as int].songs@[s as int]),
{
}

/// A move neither loses nor duplicates songs: the number of songs over all
/// folders is the same afterwards, whether the rename succeeded or not.
pub proof fn lemma_move_keeps_song_count(
    old: MusicPlayer,
    new: MusicPlayer,
    from_folder: usize,
    song_index: usize,
    to_folder: usize,
    renamed: bool,
)
    requires
        move_step(old, new, from_folder, song_index, to_folder, renamed),
    ensures
        total_songs(new.folders@) == total_songs(old.folders@),
{
    if valid_move(old, from_folder, song_index, to_folder) && renamed {
        let o = old.folders@;
        let n = new.folders@;
        let nf = n[from_folder as int];
        let nt = n[to_folder as int];
        let moved = choose|moved: Song|
            crate::models::song::is_song_of(moved, moved_path(old, from_folder, song_index, to_folder))
                && is_stable_sort_of(nt.songs@, o[to_folder as int].songs@.push(moved));
        assert(n =~= o.update(from_folder as int, nf).update(to_folder as int, nt));
        lemma_total_songs_update(o, from_folder as int, nf);
        lemma_total_songs_update(o.update(from_folder as int, nf), to_folder as int, nt);
    }
}

/// A moved song keeps its name: when its name is a plain file name, the
/// target folder afterwards holds a song of that name at the path the
/// name joined to the folder's path.
pub proof fn lemma_moved_song_keeps_name(
    old: MusicPlayer,
    new: MusicPlayer,
    from_folder: usize,
    song_index: usize,
    to_folder: usize,
)
    requires
        move_step(old, new, from_folder, song_index, to_folder, true),
        valid_move(old, from_folder, song_index, to_folder),
        is_plain_name(old.folders@[from_folder as int].songs@[song_index as int].name@),
    ensures
        exists|i: int|
            0 <= i < new.folders@[to_folder as int].songs.len() && (
            #[trigger] new.folders@[to_folder as int].songs@[i]).name@
                == old.folders@[from_folder as int].songs@[song_index as int].name@
                && new.folders@[to_folder as int].songs@[i].path@ == moved_path(
                old,
                from_folder,
                song_index,
                to_folder,
            ),
{
    let name = old.folders@[from_folder as int].songs@[song_index as int].name@;
    let nt = new.folders@[to_folder as int].songs@;
    let ot = old.folders@[to_folder as int].songs@;
    let moved = choose|moved: Song|
        crate::models::song::is_song_of(moved, moved_path(old, from_folder, song_index, to_folder))
            && is_stable_sort_of(nt, ot.push(moved));
    lemma_joined_file_name(old.folders@[to_folder as int].path@, name);
    let k = moved.sort_key();
    assert(with_key(nt, k) == with_key(ot.push(moved), k));
    ot.lemma_filter_push(moved, has_key::<Song>(k));
    assert(with_key(ot.push(moved), k).last() == moved);
    let w = with_key(nt, k);
    assert(w.contains(moved)) by {
        assert(w[w.len() - 1] == moved);
    }
    nt.lemma_filter_contains_rev(has_key::<Song>(k), moved);
    let i = choose|i: int| 0 <= i < nt.len() && nt[i] == moved;
    assert(nt[i].name@ == name);
}

impl MusicPlayer {
    /// A stopped player over `folders`.
    pub fn new(folders: Vec<Folder>) -> (p: Self)
        ensures
            p.folders == folders,
            p.current_song is None,
            p.current_folder_index is None,
            p.current_song_index is None,
            !p.is_playing,
            p.song_start_time is None,
            p.current_position == 0,
            p.dragged_song is None,
    {
        MusicPlayer {
            folders,
            current_song: None,
            current_folder_index: None,
            current_song_index: None,
            is_playing: false,
            song_start_time: None,
            current_position: 0,
            dragged_song: None,
        }
    }

    /// The folders of a music directory: first, when the directory itself
    /// holds songs, an expanded folder "Music" with them; then one collapsed
    /// folder per subdirectory that holds songs, in the order of `subdirs`.
    /// `root_files` are the directory's regular files.
    pub fn load_folders(music_dir: &str, root_files: &Vec<String>, subdirs: &Vec<DirListing>) -> (r:
        Vec<Folder>)
        requires
            forall|i: int| 0 <= i < subdirs.len() ==> (#[trigger] file_name(subdirs@[i].path@)) is Some,
        ensures
            ({
                let root: int = if song_count_of(root_files@) > 0 { 1 } else { 0 };
                let kept = subdirs@.filter(|d: DirListing| has_songs(d));
                &&& r.len() == root + kept.len()
                &&& root == 1 ==> is_root_folder_of(r@[0], music_dir@, root_files@)
                &&& forall|i: int| 0 <= i < kept.len() ==> is_folder_of(#[trigger] r@[root + i], kept[i])
            }),
    {
        let mut folders: Vec<Folder> = Vec::new();
        let root_songs = Folder::load_songs_from_dir(root_files);
        proof {
            lemma_songs_from_len(root_songs@, root_files@);
        }
        if root_songs.len() > 0 {
            let mut root_folder = Folder::new(
                String::from_str(music_dir),
                String::from_str("Music"),
                root_files,
            );
            root_folder.expanded = true;
            folders.push(root_folder);
        }
        let ghost root: int = if song_count_of(root_files@) > 0 { 1 } else { 0 };
        let ghost pred = |d: DirListing| has_songs(d);
        let mut i: usize = 0;
        proof {
            assert(subdirs@.take(0) =~= Seq::<DirListing>::empty());
            reveal_with_fuel(Seq::filter, 1);
        }
        while i < subdirs.len()
            invariant
                i <= subdirs.len(),
                forall|j: int| 0 <= j < subdirs.len() ==> (#[trigger] file_name(subdirs@[j].path@)) is Some,
                root == (if song_count_of(root_files@) > 0 { 1int } else { 0int }),
                pred == (|d: DirListing| has_songs(d)),
                folders.len() == root + subdirs@.take(i as int).filter(pred).len(),
                root == 1 ==> is_root_folder_of(folders@[0], music_dir@, root_files@),
                forall|j: int|
                    0 <= j < subdirs@.take(i as int).filter(pred).len() ==> is_folder_of(
                        #[trigger] folders@[root + j],
                        subdirs@.take(i as int).filter(pred)[j],
                    ),
            decreases subdirs.len() - i,
        {
            let ghost before = subdirs@.take(i as int);
            proof {
                assert(subdirs@.take(i + 1) =~= before.push(subdirs@[i as int]));
                before.lemma_filter_push(subdirs@[i as int], pred);
            }
            let d = &subdirs[i];
            assert(file_name(subdirs@[i as int].path@) is Some);
            let name = match path_file_name(d.path.as_str()) {
                Some(n) => n,
                None => String::new(),
            };
            let folder = Folder::new(d.path.clone(), name, &d.files);
            proof {
                lemma_songs_from_len(folder.songs@, d.files@);
            }
            if !folder.is_empty() {
                folders.push(folder);
            }
            i = i + 1;
        }
        proof {
            assert(subdirs@.take(subdirs.len() as int) =~= subdirs@);
        }
        folders
    }

    /// The paths a move renames the song file between: its own path and its
    /// name joined to the target folder's path; `None` when the move does
    /// not name existing, distinct folders and an existing song.
    pub fn move_paths(&self, from_folder: usize, song_index: usize, to_folder: usize) -> (r: Option<
        (String, String),
    >)
        ensures
            match r {
                Some((src, dst)) => valid_move(*self, from_folder, song_index, to_folder)
                    && src@ == self.folders@[from_folder as int].songs@[song_index as int].path@
                    && dst@ == moved_path(*self, from_folder, song_index, to_folder),
                None => !valid_move(*self, from_folder, song_index, to_folder),
            },
    {
        if from_folder >= self.folders.len() || to_folder >= self.folders.len() || from_folder
            == to_folder {
            return None;
        }
        if song_index >= self.folders[from_folder].songs.len() {
            return None;
        }
        let song = &self.folders[from_folder].songs[song_index];
        let dst = join_path(self.folders[to_folder].path.as_str(), song.name.as_str());
        Some((song.path.clone(), dst))
    }

    /// Finishes moving song `song_index` of folder `from_folder` to folder
    /// `to_folder`, once the caller has tried to rename the file to the
    /// destination of `move_paths`. Nothing changes when the move is not
    /// valid or the rename failed. Otherwise the song leaves its folder, the
    /// song at its new path joins the target folder, which is sorted by name
    /// again, and the current song follows: if it was the moved one it is now
    /// in the target folder, at the first song of its name; if it came after
    /// the moved one in the same folder its index drops by one.
    #[verifier::spinoff_prover]
    pub fn move_song_to_folder(
        &mut self,
        from_folder: usize,
        song_index: usize,
        to_folder: usize,
        renamed: bool,
    )
        requires
            valid_move(*old(self), from_folder, song_index, to_folder) && renamed
                && old(self).current_folder_index == Some(from_folder)
                && old(self).current_song_index == Some(song_index)
                ==> old(self).current_song is Some,
        ensures
            move_step(*old(self), *final(self), from_folder, song_index, to_folder, renamed),
    {
        if from_folder >= self.folders.len() || to_folder >= self.folders.len() || from_folder
            == to_folder || song_index >= self.folders[from_folder].songs.len() || !renamed {
            return;
        }
        let ghost old_self = *self;
        let new_path = join_path(
            self.folders[to_folder].path.as_str(),
            self.folders[from_folder].songs[song_index].name.as_str(),
        );
        let mut from = self.take_folder(from_folder);
        let removed = from.remove_song(song_index);
        self.put_folder(from_folder, from);
        let moved = Song::new(new_path);
        let ghost moved_copy = moved;
        let mut to = self.take_folder(to_folder);
        to.add_song(moved);
        self.put_folder(to_folder, to);
        assert(is_song_of(moved_copy, moved_path(old_self, from_folder, song_index, to_folder)));
        assert(is_stable_sort_of(
            self.folders@[to_folder as int].songs@,
            old_self.folders@[to_folder as int].songs@.push(moved_copy),
        ));
        assert(exists|m: Song|
            is_song_of(m, moved_path(old_self, from_folder, song_index, to_folder))
                && is_stable_sort_of(
                self.folders@[to_folder as int].songs@,
                old_self.folders@[to_folder as int].songs@.push(m),
            ));
        self.follow_moved_song(from_folder, song_index, to_folder);
    }

    /// Updates the current song's place after song `song_index` of folder
    /// `from_folder` moved to folder `to_folder` (see `tracks_current`).
    fn follow_moved_song(&mut self, from_folder: usize, song_index: usize, to_folder: usize)
        requires
            to_folder < old(self).folders.len(),
            old(self).current_folder_index == Some(from_folder)
                && old(self).current_song_index == Some(song_index)
                ==> old(self).current_song is Some,
        ensures
            final(self).folders == old(self).folders,
            final(self).current_song == old(self).current_song,
            final(self).is_playing == old(self).is_playing,
            final(self).song_start_time == old(self).song_start_time,
            final(self).current_position == old(self).current_position,
            final(self).dragged_song == old(self).dragged_song,
            tracks_current(*old(self), *final(self), from_folder, song_index, to_folder),
    {
        match (self.current_folder_index, self.current_song_index) {
            (Some(cf), Some(cs)) => {
                if cf == from_folder && cs == song_index {
                    self.current_folder_index = Some(to_folder);
                    let target = match &self.current_song {
                        Some(c) => self.position_named(to_folder, &c.name),
                        None => None,
                    };
                    if let Some(k) = target {
                        self.current_song_index = Some(k);
                    }
                } else if cf == from_folder && cs > song_index {
                    self.current_song_index = Some(cs - 1);
                }
            },
            _ => {},
        }
    }

    /// Makes song `song_index` of folder `folder_index` the current song and
    /// returns its path, for the caller to stop the output and start that
    /// file (and, once it plays, to call `playback_started`). Nothing
    /// changes, and `None` comes back, when there is no such song.
    pub fn play_song(&mut self, folder_index: usize, song_index: usize) -> (r: Option<String>)
        ensures
            play_song_step(*old(self), *final(self), folder_index, song_index, r),
    {
        if folder_index >= self.folders.len() || song_index >= self.folders[folder_index].songs.len() {
            return None;
        }
        let song = self.folders[folder_index].songs[song_index].clone();
        let path = song.path.clone();
        self.current_song = Some(song);
        self.current_folder_index = Some(folder_index);
        self.current_song_index = Some(song_index);
        Some(path)
    }

    /// Records that the current song's file started playing at `now`.
    pub fn playback_started(&mut self, now: u64)
        ensures
            *final(self) == started(*old(self), now),
    {
        self.is_playing = true;
        self.song_start_time = Some(now);
        self.current_position = 0;
    }

    /// Plays the next song of the current folder, or stops after its last
    /// song; playback never moves on to another folder.
    pub fn play_next_song(&mut self) -> (a: PlayerAction)
        ensures
            next_song_step(*old(self), *final(self), a),
    {
        match (self.current_folder_index, self.current_song_index) {
            (Some(folder_idx), Some(song_idx)) => {
                if folder_idx < self.folders.len() {
                    if song_idx < self.folders[folder_idx].songs.len() && song_idx
                        < self.folders[folder_idx].songs.len() - 1 {
                        match self.play_song(folder_idx, song_idx + 1) {
                            Some(path) => PlayerAction::Play(path),
                            None => PlayerAction::Nothing,
                        }
                    } else {
                        self.stop();
                        PlayerAction::Stop
                    }
                } else {
                    PlayerAction::Nothing
                }
            },
            _ => PlayerAction::Nothing,
        }
    }

    /// Plays the song before the current one in its folder; at the first
    /// song, or with the current folder gone, the current song is played
    /// again. Returns the path to start, as `play_song` does.
    pub fn play_previous_song(&mut self) -> (r: Option<String>)
        ensures
            match (old(self).current_folder_index, old(self).current_song_index) {
                (Some(f), Some(s)) => if f < old(self).folders.len() && s > 0 {
                    play_song_step(*old(self), *final(self), f, (s - 1) as usize, r)
                } else {
                    play_song_step(*old(self), *final(self), f, s, r)
                },
                _ => *final(self) == *old(self) && r is None,
            },
    {
        match (self.current_folder_index, self.current_song_index) {
            (Some(folder_idx), Some(song_idx)) => {
                if folder_idx < self.folders.len() && song_idx > 0 {
                    self.play_song(folder_idx, song_idx - 1)
                } else {
                    self.play_song(folder_idx, song_idx)
                }
            },
            _ => None,
        }
    }

    /// Pauses: the player is no longer playing.
    pub fn pause(&mut self)
        ensures
            *final(self) == paused(*old(self)),
    {
        self.is_playing = false;
    }

    /// Resumes at `now`: playing again, with the start time moved so that
    /// the position carries on from where it was.
    pub fn resume(&mut self, now: u64)
        requires
            old(self).song_start_time is Some ==> now >= old(self).current_position,
        ensures
            *final(self) == resumed(*old(self), now),
    {
        self.is_playing = true;
        if self.song_start_time.is_some() {
            self.song_start_time = Some(now - self.current_position);
        }
    }

    /// Stops: no current song, not playing, position back to zero.
    pub fn stop(&mut self)
        ensures
            stopped(*old(self), *final(self)),
    {
        self.is_playing = false;
        self.song_start_time = None;
        self.current_position = 0;
        self.current_song = None;
        self.current_folder_index = None;
        self.current_song_index = None;
    }

    /// Updates the position at `now` while playing; when the output has
    /// run dry (`output_empty`) with a song current, moves on as
    /// `play_next_song` does.
    pub fn update_position(&mut self, now: u64, output_empty: bool) -> (a: PlayerAction)
        ensures
            match old(self).song_start_time {
                Some(start) => if old(self).is_playing {
                    let moved = with_position(*old(self), now);
                    if output_empty && old(self).current_song is Some {
                        next_song_step(moved, *final(self), a)
                    } else {
                        *final(self) == moved && a is Nothing
                    }
                } else {
                    *final(self) == *old(self) && a is Nothing
                },
                None => *final(self) == *old(self) && a is Nothing,
            },
    {
        if self.is_playing {
            if let Some(start) = self.song_start_time {
                self.current_position = if now >= start { now - start } else { 0 };
                if output_empty && self.current_song.is_some() {
                    return self.play_next_song();
                }
            }
        }
        PlayerAction::Nothing
    }

    /// Shows or hides the songs of folder `folder_index`, if it exists.
    pub fn toggle_folder_expanded(&mut self, folder_index: usize)
        ensures
            final(self).folders.len() == old(self).folders.len(),
            forall|i: int|
                0 <= i < old(self).folders.len() && i != folder_index
                    ==> #[trigger] final(self).folders@[i] == old(self).folders@[i],
            folder_index < old(self).folders.len() ==> {
                let f = old(self).folders@[folder_index as int];
                final(self).folders@[folder_index as int] == Folder { expanded: !f.expanded, ..f }
            },
            final(self).current_song == old(self).current_song,
            final(self).current_folder_index == old(self).current_folder_index,
            final(self).current_song_index == old(self).current_song_index,
            final(self).is_playing == old(self).is_playing,
            final(self).song_start_time == old(self).song_start_time,
            final(self).current_position == old(self).current_position,
            final(self).dragged_song == old(self).dragged_song,
    {
        if folder_index < self.folders.len() {
            let mut f = self.take_folder(folder_index);
            f.toggle_expanded();
            self.put_folder(folder_index, f);
        }
    }

    /// Records that song `song_index` of folder `folder_index` is dragged.
    pub fn set_dragged_song(&mut self, folder_index: usize, song_index: usize)
        ensures
            *final(self) == (MusicPlayer {
                dragged_song: Some((folder_index, song_index)),
                ..*old(self)
            }),
    {
        self.dragged_song = Some((folder_index, song_index));
    }

    /// Records that no song is dragged.
    pub fn clear_dragged_song(&mut self)
        ensures
            *final(self) == (MusicPlayer { dragged_song: None, ..*old(self) }),
    {
        self.dragged_song = None;
    }

    /// Whether song `song_index` of folder `folder_index` is the current
    /// song and playing.
    pub fn is_current_song(&self, folder_index: usize, song_index: usize) -> (r: bool)
        ensures
            r == is_current(*self, folder_index, song_index),
    {
        let same_folder = match self.current_folder_index {
            Some(f) => f == folder_index,
            None => false,
        };
        let same_song = match self.current_song_index {
            Some(s) => s == song_index,
            None => false,
        };
        same_folder && same_song && self.is_playing
    }

    /// Takes folder `i` out, leaving an empty placeholder in its slot.
    fn take_folder(&mut self, i: usize) -> (f: Folder)
        requires
            i < old(self).folders.len(),
        ensures
            f == old(self).folders@[i as int],
            final(self).folders.len() == old(self).folders.len(),
            forall|j: int|
                0 <= j < old(self).folders.len() && j != i ==> #[trigger] final(self).folders@[j]
                    == old(self).folders@[j],
            final(self).current_song == old(self).current_song,
            final(self).current_folder_index == old(self).current_folder_index,
            final(self).current_song_index == old(self).current_song_index,
            final(self).is_playing == old(self).is_playing,
            final(self).song_start_time == old(self).song_start_time,
            final(self).current_position == old(self).current_position,
            final(self).dragged_song == old(self).dragged_song,
    {
        let placeholder = Folder {
            name: String::new(),
            path: String::new(),
            songs: Vec::new(),
            expanded: false,
        };
        self.folders.push(placeholder);
        let f = self.folders.swap_remove(i);
        f
    }

    /// Puts `f` back into slot `i`.
    fn put_folder(&mut self, i: usize, f: Folder)
        requires
            i < old(self).folders.len(),
        ensures
            final(self).folders@ == old(self).folders@.update(i as int, f),
            final(self).current_song == old(self).current_song,
            final(self).current_folder_index == old(self).current_folder_index,
            final(self).current_song_index == old(self).current_song_index,
            final(self).is_playing == old(self).is_playing,
            final(self).song_start_time == old(self).song_start_time,
            final(self).current_position == old(self).current_position,
            final(self).dragged_song == old(self).dragged_song,
    {
        self.folders.push(f);
        let _ = self.folders.swap_remove(i);
    }

    /// The index of the first song named `name` in folder `folder`, if any.
    fn position_named(&self, folder: usize, name: &String) -> (r: Option<usize>)
        requires
            folder < self.folders.len(),
        ensures
            match r {
                Some(k) => first_named(self.folders@[folder as int].songs@, name@, k as int),
                None => forall|k: int|
                    0 <= k < self.folders@[folder as int].songs.len() ==> !first_named(
                        self.folders@[folder as int].songs@,
                        name@,
                        k,
                    ),
            },
    {
        let songs = &self.folders[folder].songs;
        let mut k: usize = 0;
        while k < songs.len()
            invariant
                songs == self.folders@[folder as int].songs,
                k <= songs.len(),
                forall|j: int| 0 <= j < k ==> (#[trigger] songs@[j]).name@ != name@,
            decreases songs.len() - k,
        {
            if songs[k].name == *name {
                return Some(k);
            }
            k = k + 1;
        }
        None
    }
}

} // verus!
