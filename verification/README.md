# custom_yt

A terminal YouTube client that finds videos with `yt-dlp` and plays their
streams with `ffplay`. The decision logic is a Verus-verified library; the
program around it only reads the terminal, runs the two tools and prints.

- `src/text.rs`: characters, trimming, lines, decimal numbers, searching in text.
- `src/title.rs`: the player window's title.
- `src/quality.rs`: quality presets and their `yt-dlp` format filters.
- `src/queue.rs`: the playback queue and how it moves to the next video.
- `src/prompt.rs`: reading answers to prompts and the menu after a video.
- `src/browse.rs`: paging through search results and choosing one.
- `src/ytdlp.rs`: `yt-dlp` command lines and reading what it prints.
- `src/player.rs`: the `ffplay` command line.
- `src/setup.rs`: required tools, install hints, the banner.
- `app/main.rs`: the interactive program (tokio, anyhow).
- `tests/`: tests of the library.
