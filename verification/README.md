# video_transcriber_mcp

A video transcription MCP server whose decision-making core is verified with
Verus.

- `src/` is the verified library. `text` holds character-level helpers
  (trimming, replacing, splitting, decimal numbers); `types` the models,
  metadata and results; `preview` transcript previews and file-name
  sanitising; `youtube` video-ID recognition, player-response extraction,
  caption-track choice and caption-XML decoding; `engine` the route a
  transcription takes, output file names and the Markdown document;
  `whisper` model paths, language choice and segment joining; `media` the
  ffmpeg command lines; `catalog` the transcript management tools
  (grouping, ordering, latest, deletion, clean-up); `tools` tool routing,
  arguments and replies; `timefmt` calendar dates of timestamps.
- `app/` is the program around it: the command line, the rmcp and
  line-based JSON-RPC transports, HTTP, child processes (yt-dlp, ffmpeg),
  the filesystem and whisper.cpp.
- `tests/` runs the library on concrete values.
