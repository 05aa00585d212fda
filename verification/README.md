# mfp

Streams the music mixes of musicforprogramming.net in a terminal.

The decisions of the player live in a library whose functions carry
contracts proved with Verus; the command around it does the I/O.

- `src/text.rs`: decimal numbers (`str::parse::<u64>` and `{:02}` formatting),
  splitting on a separator, trimming Unicode white space.
- `src/duration.rs`: `HH:MM:SS` durations, parsed and formatted, and the
  progress text; formatting then parsing gives the number back.
- `src/feed.rs`: the feed read from RSS text (through the `rss` crate),
  its episodes, random choice of the next episode (through `rand`), removal
  of played episodes, and track numbers.
- `src/player.rs`: the playback state machine: position, pause and resume,
  seeking, volume, and the action that each key press yields.
- `src/args.rs`: the command-line settings and what to play.
- `app/`: the command itself: argument parsing, the HTTP download, the audio
  device, the terminal and the progress bar.
- `tests/`: tests of the library on concrete values.

Verify the library with Verus; the tests run with `cargo test`.
