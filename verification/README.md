# ezstreamer_core

The verified core of ezStreamer, a screen + audio streamer for TopazChat
(RTMP ingest, RTSP playback). The library holds the logic of the streamer;
its functions carry Verus contracts and are proved, except for the few
that call other code and whose contracts are trusted, not proved:
`push_char` (`String::push`), `encode_png` (the `image` crate),
`encode_base64` (the `base64` crate), and `parse_json` with its converter
`json_node` (`serde_json`).

- `config`, `urls`: output profiles, TopazChat bitrate limits, stream-key
  rules, playback URLs.
- `gst`: GStreamer stream plan (encoder choice, properties, caps, launch
  string), encoder discovery, and the supervision policy (retry budget,
  backoff, bus outcome).
- `backend`: the worker's decisions: what a finished pipeline leads to,
  the reconnect loop, stream-start inputs, configuration checks.
- `video`: BGRA frame normalization (scale, letterbox, stride repack,
  BGRA to RGBA).
- `audio`: mixing-pump run lengths.
- `capture`: capture-side data, audio source selection (PipeWire and
  WASAPI), and the PNG preview (`image` and `base64` crates).
- `ui`: language, the parsed ja/en locale files and their lookup by
  dotted key, interpolation, steps, selections.
- `logging`: log file naming, line format, rotation.

`app/` is a headless driver around the library: configuration file, log
files, the worker thread and its channels. `tests/` exercises the library.
