# music_analyzer

The logic of a viewer for music analysis results (BPM, sections, chords,
separated stems), with its behaviour stated as Verus contracts and proved.

## Layout

- `src/` — the verified library.
  - `chords.rs` — Harte chord labels: root pitch class, display text, hue.
  - `keys.rs` — key estimation from chord roots, key hues on the circle of
    fifths, and the key-colour timeline of a chord sequence.
  - `sections.rs` — section labels: colour class, visual energy, listing,
    roles in the visualization, toggling the selection of sections.
  - `overrides.rs` — the history of user label edits, the labels in force,
    recording and undoing edits, applying them to a track's segments.
  - `section_card.rs` — the state machine of the floating section card:
    when it enters, fades before a section ends, leaves, hides and returns.
  - `tracks.rs` — naming rules of the analysis folder: audio stems, JSON and
    overrides file names, stem track names, ordering of stems.
  - `listing.rs` — ordering of the track list, the shown analysis date,
    the rows of the section list and context menu placement.
  - `song_state.rs` — settings remembered per song (saved on leaving a song,
    restored on coming back), the loop zone and section selection.
  - `pattern.rs` — the build-up pattern of the visualization: anticipation,
    silence flash and impact before a chorus.
  - `config.rs` — backend mode, the settings in force, HTTP API URLs.
  - `stems.rs` — availability of the four stem files.
  - `text.rs` — trimming, lower-casing, decimal text, "m:ss" times.
  - `clock.rs` — decimal UNIX timestamps.
  - `visual.rs` — the animation's pseudo-random generator.
- `tests/` — tests on concrete values.
- `app/` — a command-line program over an analysis folder: file I/O and JSON,
  and the floating-point parts of playback and visualization.
