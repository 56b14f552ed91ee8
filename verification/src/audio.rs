//! Audio file detection and the bookkeeping of a single-file audio player:
//! what is loaded, whether it is paused and how far playback has come. The
//! output device and decoder stay with the caller; times are nanoseconds on
//! the caller's monotonic clock.
use vstd::prelude::*;
use crate::paths::{extension, path_extension};
use crate::settings::default_formats;
use crate::text::{lowercase_of, to_lowercase};

verus! {

/// The extensions, in lower case, of the files the player treats as audio.
pub open spec fn is_audio_extension(e: Seq<char>) -> bool {
    e == "mp3"@ || e == "wav"@ || e == "ogg"@ || e == "flac"@ || e == "m4a"@ || e == "aac"@
        || e == "wma"@ || e == "mp4"@
}

/// A path whose extension, in lower case, is that of an audio file.
pub open spec fn is_audio_path(path: Seq<char>) -> bool {
    match extension(path) {
        Some(e) => is_audio_extension(lowercase_of(e)),
        None => false,
    }
}

/// A folder takes as songs exactly the audio files: the song formats are
/// the audio formats.
pub proof fn lemma_song_files_are_audio(path: Seq<char>)
    ensures
        crate::models::song::is_song_path(path) == is_audio_path(path),
{
}

/// A path is an audio file exactly when it has an extension whose lower-case
/// form is one of mp3, wav, ogg, flac, m4a, aac, wma and mp4; any other
/// extension (an image's, a text's) or none at all is not audio.
pub proof fn lemma_audio_files_by_extension(path: Seq<char>)
    ensures
        is_audio_path(path) <==> (extension(path) is Some && ({
            let e = lowercase_of(extension(path)->0);
            e == "mp3"@ || e == "wav"@ || e == "ogg"@ || e == "flac"@ || e == "m4a"@ || e == "aac"@
                || e == "wma"@ || e == "mp4"@
        })),
{
}

/// The files taken as audio are those of the formats that the library
/// settings list by default: an extension is audio exactly when that list
/// holds it.
pub proof fn lemma_audio_extensions_are_default_formats(e: Seq<char>)
    ensures
        is_audio_extension(e) <==> default_formats().contains(e),
{
    let f = default_formats();
    assert(f[0] == "mp3"@);
    assert(f[1] == "wav"@);
    assert(f[2] == "ogg"@);
    assert(f[3] == "flac"@);
    assert(f[4] == "m4a"@);
    assert(f[5] == "aac"@);
    assert(f[6] == "wma"@);
    assert(f[7] == "mp4"@);
    if f.contains(e) {
        let i = choose|i: int| 0 <= i < f.len() && f[i] == e;
        assert(0 <= i < 8);
    }
    if is_audio_extension(e) {
        if e == "mp3"@ { assert(f[0] == e); }
        if e == "wav"@ { assert(f[1] == e); }
        if e == "ogg"@ { assert(f[2] == e); }
        if e == "flac"@ { assert(f[3] == e); }
        if e == "m4a"@ { assert(f[4] == e); }
        if e == "aac"@ { assert(f[5] == e); }
        if e == "wma"@ { assert(f[6] == e); }
        if e == "mp4"@ { assert(f[7] == e); }
    }
}

fn equals_literal(s: &String, lit: &str) -> (r: bool)
    ensures
        r == (s@ == lit@),
{
    let l = String::from_str(lit);
    *s == l
}

/// Whether the lower-case extension `ext` is one of `mp3`, `wav`, `ogg`,
/// `flac`, `m4a`, `aac`, `wma`, `mp4`.
pub fn is_audio_extension_name(ext: &String) -> (r: bool)
    ensures
        r == is_audio_extension(ext@),
{
    equals_literal(ext, "mp3") || equals_literal(ext, "wav") || equals_literal(ext, "ogg")
        || equals_literal(ext, "flac") || equals_literal(ext, "m4a") || equals_literal(ext, "aac")
        || equals_literal(ext, "wma") || equals_literal(ext, "mp4")
}

/// Whether `path` names an audio file: its extension, in lower case, is one
/// of `mp3`, `wav`, `ogg`, `flac`, `m4a`, `aac`, `wma`, `mp4`.
pub fn is_audio_file(path: &str) -> (r: bool)
    ensures
        r == is_audio_path(path@),
{
    match path_extension(path) {
        Some(ext) => is_audio_extension_name(&to_lowercase(ext.as_str())),
        None => false,
    }
}

/// The length assumed for a file whose length is not known: three minutes.
pub open spec fn default_length() -> u64 {
    180_000_000_000
}

/// What the caller does with the output after a toggle.
#[derive(Debug, Clone, Copy, PartialEq, Eq)]
pub enum OutputCommand {
    /// Start the output again.
    Play,
    /// Pause the output.
    Pause,
}

/// The state of a player of one audio file at a time.
#[derive(Debug)]
pub struct AudioPlayer {
    /// Whether an output for a file exists.
    pub loaded: bool,
    /// The file being played.
    pub current_file: Option<String>,
    /// When playback started, shifted by the time spent paused.
    pub start_time: Option<u64>,
    /// How far playback had come when it was paused.
    pub pause_time: Option<u64>,
    /// The length of the file, when its format tells it.
    pub total_duration: Option<u64>,
    /// Whether playback is paused.
    pub is_paused: bool,
}

/// The time reported at `now`: the paused position while paused, the time
/// since the (shifted) start otherwise, zero when not known.
pub open spec fn time_at(p: AudioPlayer, now: u64) -> u64 {
    if p.is_paused {
        match p.pause_time {
            Some(d) => d,
            None => 0,
        }
    } else {
        match p.start_time {
            Some(s) => if now >= s { (now - s) as u64 } else { 0 },
            None => 0,
        }
    }
}

/// The state of a stopped player.
pub open spec fn is_stopped(p: AudioPlayer) -> bool {
    &&& !p.loaded
    &&& p.current_file is None
    &&& p.start_time is None
    &&& p.pause_time is None
    &&& p.total_duration is None
    &&& !p.is_paused
}

/// Resuming at `now` does not reach back before the clock's origin.
pub open spec fn can_toggle(p: AudioPlayer, now: u64) -> bool {
    p.loaded && p.is_paused && p.pause_time is Some ==> now >= p.pause_time->0
}

/// The state after a pause/resume toggle at `now`: nothing changes without
/// a loaded file; resuming clears the pause and moves the start back by the
/// paused position; pausing records the time since the start.
pub open spec fn toggled(p: AudioPlayer, now: u64) -> AudioPlayer {
    if !p.loaded {
        p
    } else if p.is_paused {
        AudioPlayer {
            is_paused: false,
            pause_time: None,
            start_time: match p.pause_time {
                Some(d) => Some((now - d) as u64),
                None => p.start_time,
            },
            ..p
        }
    } else {
        AudioPlayer {
            is_paused: true,
            pause_time: match p.start_time {
                Some(s) => Some(if now >= s { (now - s) as u64 } else { 0 }),
                None => p.pause_time,
            },
            ..p
        }
    }
}

/// What a toggle asks of the output: nothing without a loaded file, play
/// when paused, pause otherwise.
pub open spec fn toggle_command(p: AudioPlayer) -> Option<OutputCommand> {
    if !p.loaded {
        None
    } else if p.is_paused {
        Some(OutputCommand::Play)
    } else {
        Some(OutputCommand::Pause)
    }
}

/// Pausing freezes the reported time at its value when paused, and resuming
/// carries on from there: after a pause at `t1` and a resume at `t2`, the
/// time at `t` is the time at `t1` plus `t - t2`.
pub proof fn lemma_pause_resume_keeps_time(p: AudioPlayer, t1: u64, t2: u64, t: u64)
    requires
        p.loaded,
        !p.is_paused,
        p.start_time is Some,
        p.start_time->0 <= t1 <= t2 <= t,
    ensures
        forall|u: u64| time_at(toggled(p, t1), u) == time_at(p, t1),
        can_toggle(toggled(p, t1), t2),
        time_at(toggled(toggled(p, t1), t2), t) == time_at(p, t1) + (t - t2),
{
}

impl AudioPlayer {
    /// The fields agree: a file is loaded exactly when one is named, and a
    /// loaded file has a start time; a pause time is kept exactly while
    /// paused, which only a loaded file can be; with nothing loaded there is
    /// no start time and no length.
    pub open spec fn wf(self) -> bool {
        &&& self.loaded == self.current_file is Some
        &&& self.loaded ==> self.start_time is Some
        &&& self.is_paused == self.pause_time is Some
        &&& self.is_paused ==> self.loaded
        &&& !self.loaded ==> self.start_time is None && self.total_duration is None
    }

    /// A player with nothing loaded.
    pub fn new() -> (p: AudioPlayer)
        ensures
            is_stopped(p),
            p.wf(),
    {
        AudioPlayer {
            loaded: false,
            current_file: None,
            start_time: None,
            pause_time: None,
            total_duration: None,
            is_paused: false,
        }
    }

    /// Records that the file at `path` started playing at `now`, with the
    /// length its format gave, if any.
    pub fn play_file(&mut self, path: String, now: u64, duration: Option<u64>)
        ensures
            final(self).loaded,
            final(self).current_file == Some(path),
            final(self).start_time == Some(now),
            final(self).pause_time is None,
            final(self).total_duration == duration,
            !final(self).is_paused,
            final(self).wf(),
    {
        self.loaded = true;
        self.current_file = Some(path);
        self.start_time = Some(now);
        self.pause_time = None;
        self.total_duration = duration;
        self.is_paused = false;
    }

    /// Pauses or resumes at `now` (see `toggled`). Pausing keeps how far
    /// playback had come; resuming moves the start so that time carries on
    /// from there. With no file loaded nothing changes and `None` comes back.
    pub fn toggle_playback(&mut self, now: u64) -> (c: Option<OutputCommand>)
        requires
            can_toggle(*old(self), now),
        ensures
            *final(self) == toggled(*old(self), now),
            c == toggle_command(*old(self)),
            old(self).wf() ==> final(self).wf(),
    {
        if !self.loaded {
            return None;
        }
        if self.is_paused {
            self.is_paused = false;
            if let Some(d) = self.pause_time {
                self.start_time = Some(now - d);
            }
            self.pause_time = None;
            Some(OutputCommand::Play)
        } else {
            self.is_paused = true;
            if let Some(s) = self.start_time {
                self.pause_time = Some(if now >= s { now - s } else { 0 });
            }
            Some(OutputCommand::Pause)
        }
    }

    /// Forgets the file and all times.
    pub fn stop(&mut self)
        ensures
            is_stopped(*final(self)),
            final(self).wf(),
    {
        self.loaded = false;
        self.current_file = None;
        self.start_time = None;
        self.pause_time = None;
        self.total_duration = None;
        self.is_paused = false;
    }

    /// Whether sound is coming out: a file is loaded, its output still has
    /// sound queued (`!output_empty`) and it is not paused.
    pub fn is_playing(&self, output_empty: bool) -> (r: bool)
        ensures
            r == (self.loaded && !output_empty && !self.is_paused),
    {
        self.loaded && !output_empty && !self.is_paused
    }

    /// Whether playback is over: nothing loaded, or the output ran dry.
    pub fn is_finished(&self, output_empty: bool) -> (r: bool)
        ensures
            r == (!self.loaded || output_empty),
    {
        if self.loaded {
            output_empty
        } else {
            true
        }
    }

    /// How far playback has come at `now` (see `time_at`).
    pub fn current_time(&self, now: u64) -> (t: u64)
        ensures
            t == time_at(*self, now),
    {
        if self.is_paused {
            match self.pause_time {
                Some(d) => d,
                None => 0,
            }
        } else {
            match self.start_time {
                Some(s) => if now >= s {
                    now - s
                } else {
                    0
                },
                None => 0,
            }
        }
    }

    /// The length of the file: the one its format gave, three minutes
    /// otherwise.
    pub fn total_time(&self) -> (t: u64)
        ensures
            t == match self.total_duration {
                Some(d) => d,
                None => default_length(),
            },
    {
        match self.total_duration {
            Some(d) => d,
            None => 180_000_000_000,
        }
    }

    /// Whether a file is loaded.
    pub fn has_file_loaded(&self) -> (r: bool)
        ensures
            r == self.current_file is Some,
    {
        self.current_file.is_some()
    }
}

} // verus!
