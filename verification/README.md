# rustify

A folder-based music player. The library under `src/` is verified with
Verus; `app/` is the desktop program around it (egui window, rodio audio
output, file system and settings storage).

## Layout of `src/`

- `paths` — Unix path rules: components, file name, stem, extension,
  parent name, equality, prefix and joining.
- `text`, `order`, `sorting` — substring search, the string order and a
  stable sort by string keys.
- `models` — songs and folders (playlists kept sorted by name).
- `player` — the player state: current song, next/previous within a
  folder, pause/resume and position, moving songs between folders.
- `audio` — audio file detection and the bookkeeping of a one-file player.
- `library` — tracks read from file names, search, and rescans.
- `ui` — search over folders and songs, sidebar totals, drag and drop,
  the play/pause button.
- `format` — file sizes and durations as shown.
- `settings`, `error` — library settings, themes, error texts and levels.

Times are nanoseconds on the caller's monotonic clock; the caller performs
the audio actions that the player's decisions return.
