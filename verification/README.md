# quicrtc

The core of a real-time communication library built around Media over QUIC (MoQ),
written in Verus: the executable code carries `requires`/`ensures` contracts over
mathematical models (`Seq`, `Map`, spec functions and views), and Verus proves them.

## Layout

- `src/` — the verified library.
  - `signaling` — rooms, participants and the signaling server's answer to every
    message (joins, leaves, room creation, MoQ session offers and answers, room
    listings), including the clean-up of a closed connection; `connections` holds the
    table from participants to their connections, a `DashMap`.
  - `discovery` — peer discovery state: peers by room, capacity limits, status
    changes, room synchronisation, statistics and the clean-up of offline peers.
  - `moq` — the MoQ object assembler: objects into groups in object-ID order,
    end-of-group completion, gap detection and retransmission requests, expiry of
    waiting groups, per-track statistics.
  - `quality` — congestion detection, bandwidth estimation and the history of quality
    adaptations, with integer arithmetic.
  - `codecs` — codec configuration and registry; H.264 coding through OpenH264.
  - `room` — what a room decides around its media: the device checks when its media
    start, the checks before publishing the camera or the microphone, the names a
    published track is announced under and the camera's capture settings.
  - `capture`, `render`, `video`, `tracks` — capture backends and their choice,
    frame processing set-up, the audio ring buffer, the video frame queue and the
    software video renderer, pixel formats, frame memory and letterboxing.
  - `participant`, `session` — local and remote participants, participant
    collections, event kinds and filters, quality ratings and room settings.
  - `error`, `text`, `assoc`, `keyed`, `clock` — errors and their messages, string
    helpers, a string map, keyed sequences and the clocks.
- `tests/` — tests of the library, run against the compiled crate.
- `app/` — the code around the library that Verus does not see: the WebSocket
  server and its JSON wire format, the asynchronous discovery service, floating-point
  quality control and audio frames, Opus coding, audio playback, the display
  adjustments and audio conversion in floating point, the video render manager's
  frame loop, and the devices a room starts.

Each law of the library (what one operation undoes of another, what every operation
keeps) is a `pub proof fn` next to the functions it speaks of.
