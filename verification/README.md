# haneng

Hangul/English input helper: composes QWERTY keys into Hangul (dubeolsik and
the two sebeolsik layouts), turns Hangul back into keys, detects words typed
in the wrong input mode, tracks the word being typed, plans replacements,
reads and writes the settings, and decides what the platform indicators
show. Every function of the library carries a contract; all are proved by Verus except a few small wrappers of std functions, whose contracts are trusted.

- `src/` the verified library. Conversion: `hangul`, `layout`, `compose`,
  `decompose`, with the round-trip laws in `roundtrip`,
  `sebeolsik_roundtrip` and `key_roundtrip`. Detection: `lexicon`, `lexicon_data`, `detect`,
  `auto`. Typing state: `tracker`, `plan`, `sync`. Settings: `config`,
  `settings`. Platform decisions: `linux`, `macos`, `windows`. Tools:
  `cli`, `ffi`, `datagen`. Text and number helpers: `text`, `number`,
  `table`.
- `tests/` the tests, run against the compiled library.
- `app/` the programs around it (command line tool, table builder, C
  interface, X11 indicator daemon, update check, settings files).

Detection scores are exact integers scaled by 10^9 where probabilities are
meant. The detectors built by `Detector::new` and `Detector::with_layout`
carry a built-in seed dictionary of common English and Korean words
(`src/lexicon_data.rs`), with no bigram transition observed. Fuller word
lists and bigram tables can be built by `app/datagen.rs` from frequency
lists that are not part of this repository and passed in through
`Lexicon::new` and `Detector::with_lexicon`.
