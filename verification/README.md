# music_cli

A music-theory toolkit: melody and progression analysis, validation, scoring,
searching, scale maps, staff and piano-roll rendering, and MIDI ⇄ CSV note tables.

- `src/` is the library, written in Verus. Every function states its result in a
  contract over spec functions and is proved; the `lemma_*` proof functions state
  the laws that span several functions (a sorted note table is ordered, a search
  keeps only matches, a rendered staff shows every note, ...). MIDI bytes are read
  and written with `midly` by `parse_smf` (`midi.rs`) and `encode_smf` (`smf.rs`), with
  their event converters `event_of` and `midly_event`; these, and `push_char`
  (`text.rs`, over `String::push`), are the functions Verus trusts without proof.
- `tests/` runs the library on concrete inputs.
- `app/` is the `music` command line: argument parsing (`clap`), files, JSON output
  (`serde`), the tuning engine's frequencies and labels, and the floating-point
  scores and envelopes, all around calls into the library.
