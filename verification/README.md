# crabcamera

Camera capture support for desktop applications, as a library whose logic is
verified with Verus, plus a thin layer of ordinary Rust around it.

## Layout

- `src/` — the verified library.
  - `types.rs`, `errors.rs` — platforms, frames, controls, errors.
  - `webrtc/` — RFC 6184 H.264 and RFC 7587 Opus RTP packetization (with a
    proof that reassembling the packets gives back the NAL units), RGB to
    YUV 4:2:0 conversion, H.264 encoding through openh264 and the streamer's
    state.
  - `quality/` — box-average downscaling, integer Laplacian/Sobel/edge
    kernels, grades and profiles, recommendations and the smart trigger's
    decision step.
  - `platform/` — per-platform answers of the camera system, hot-plug event
    computation and the monitor's on/off state, control plans for V4L2 and
    Media Foundation, the V4L2 format and control decisions, the mock
    camera's mode table, the registry of open cameras, capture with
    reconnection and exponential backoff, capture counters and the reading
    of `/proc/self/statm`.
  - `preview/` — JPEG encoding and bilinear downscaling of preview frames
    (through the `image` crate) and the preview stream's per-frame schedule.
  - `recording/` — recording presets, audio settings and recording counters.
  - `registry.rs` — the feature manifest, with its uniqueness and
    no-stub properties.
  - `timing.rs`, `testing/`, `text.rs` — the presentation clock, synthetic
    frames, decimal rendering and parsing.
- `tests/` — tests of the library.
- `app/` — floating-point settings, scores and metrics, device probing and
  monitoring, the async camera registry and reconnecting capture, the async
  streaming task, the MP4 recorder and serde forms of the library's types.
