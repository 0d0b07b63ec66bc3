# clip_service

The verified core of a screen-clipping program: it keeps the last seconds of
encoded capture in a ring buffer and turns them into a clip on request.

- `src/` is the library, checked by Verus. Every public function states its
  behaviour in `requires`/`ensures`; the laws of the library are public proof
  functions (`law_*`).
  - `ring_buffer`: the packet window and the keyframe-aligned clip.
  - `logger`: the bounded log history.
  - `capture`, `audio`, `video`, `caps`, `devices`, `encoders`: what the capture
    pipeline is built from, the start attempts, and the reaction to bus messages.
  - `runtime`, `backend`, `commands`: the decisions of the capture backend and
    of the desktop shell's commands (start, stop, restart, settings updates,
    clips), as step functions the program drives.
  - `shortcut`: reading the clip shortcut and replacing the registered one,
    as a step function.
  - `ui_state`, `ui_text`: the interface state driven by backend events, and
    the texts it shows.
  - `settings`, `text`, `remux`: settings comparison, string helpers, and the
    remux summary.
- `tests/` runs the library on concrete values.
- `app/` is the program around the library: GStreamer pipelines, threads,
  channels, the global shortcut and a terminal front end.
