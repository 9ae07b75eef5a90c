# music_theory

Verified music-theory primitives in Rust, checked with Verus: spelled pitches and
pitch classes, intervals (qualities, numbers, sizes, arithmetic, parsing), notes and
MIDI numbers, keys and modes, enharmonic comparison, pitch-class sets, twelve-tone
rows and matrices, clefs and staff positions, chord symbols, chord shapes, pitch
chords and note chords (closed and compact voicings, inversions), chord-root
finding, written durations and tempos, and the plain-value steps of writing a
free-form container as a score (divisions, starting clef and key, durations in
divisions, and the measures with their notes, rests and shown accidentals).

Layout:

- `src/` — the library, proved by Verus. Public functions (all but the trusted
  `Duration::ratio`) carry `requires`/`ensures`
  contracts over spec functions (`int`, `Seq`, the types' own spec accessors);
  laws relating several functions are stated as public proof functions (`law_*`).
  The trusted items are the small wrappers around `arrayvec::ArrayVec` (in
  `src/chord/root.rs`), `rustc_hash::FxHashSet` (in `src/chord/voicing.rs`) and
  `num_rational::Ratio` (in `src/duration.rs`).
- `tests/` — ordinary Rust tests, run against the compiled library.
- `app/` — the floating-point helpers (note frequencies, durations as `f32`), which
  Verus does not check.
