# MoonBeam host library

Verified core of the MoonBeam host (a Linux virtual display streamed to a
tablet, with pen and touch input coming back).

- `src/` — the library, verified with Verus:
  - `frame`: the `[type][flags][payload]` WebSocket framing and the ping/pong reply;
  - `input`: input messages and the kernel reports they become;
  - `device`: capability sets of the virtual pen and touch devices;
  - `model`: what a device makes of reports (key state, multitouch slots,
    accepted events) and the laws relating reports and devices;
  - `capture`: buffer checks and strided row copies of captured frames;
  - `encode`: format negotiation, encoder settings and counters;
  - `writeback`: DRM writeback pixel-format blobs;
  - `session`: per-connection decisions;
  - `gesture`: scripted strokes and pinches.
- `app/` — the programs: the daemon and the probes, doing all I/O
  (portal, PipeWire, NVENC, uinput, WebSocket, DRM).
- `tests/` — tests of the library.
