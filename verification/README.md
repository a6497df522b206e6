# pinepods_pages

The page logic of a podcast web client, written in Verus with its behaviour stated in
`requires`/`ensures` contracts and proved: which transcript is shown and how its cues are
read, how episode lists are filtered, ordered, paged and selected, how the history,
downloads, feed, discovery, podcast and episode pages decide what to show and what to send
to the server, and how preferences are saved and read back.

Layout:

- `src/` — the verified library, one module per page or concern (`text` holds the
  character-level string operations the others are built on).
- `tests/` — tests of the library on concrete values.
- `app/` — the little that stays outside: decisions made on floating-point values
  (cue times, play positions, progress, playback speed) and the JSON parser's own error text.

Outside crates are called from `src/` through small trusted functions whose contracts are
stated next to them: `regex` (voice tags in transcripts), `urlencoding` (query parameters),
`ammonia` and `htmlentity` (description markup), `serde_json` (stored login state and server
replies).
