# youtube-helper-rs

A typed wrapper around the `yt-dlp` command-line program, with its decisions
proved correct by Verus.

- `src/` is the verified library: the URL check made before any process is
  spawned, the argument lists for metadata and audio download, the reading of
  `yt-dlp`'s stdout (first non-blank line holding the JSON document, last
  printed line naming the produced file), the classification of failures into
  `YoutubeHelperError` variants, and the text handling these rest on (Unicode
  white space, `trim`, `lines`, prefix and substring tests).
- `app/` runs `yt-dlp` as a subprocess, creates the output directory, checks
  that the printed file exists, parses the JSON into `VideoMetadata` with
  serde, and exposes `fetch_metadata`, `download_audio` and a `thiserror`
  error type.
- `tests/` runs the library on concrete inputs.
