# motionlens_core

Verified core of an animation-evidence toolkit: a web page is driven under a
frozen virtual clock, frames are captured at absolute virtual times, and the
captured sequence is graded against a declared intent.

- `src/` is the library, verified with Verus: identifiers, artifact naming and
  URI resolution, the per-session episode ledger, trigger scripts, the
  classification of layout transitions, intent grading, the channel-wise frame
  comparison, the GIF/APNG export of frames and inline thumbnails (through the
  `image`, `png` and `base64` crates), the reading of CSS transform text, the
  contact sheet (geometry, box strokes and composition), the facts the CI
  check reads from a report, gate evaluation, motion-source bookkeeping and
  diagnosis hints.
  Public proof functions named `law_*` state the properties that hold across
  calls.
- `tests/` exercises the library on concrete values.
- `app/` is the command line and MCP server around the library: it drives
  Chromium, touches the file system and computes the floating-point measures
  (pixel ratios, smoothness, jank, easing fits), handing the library plain
  values.
