# compositor

The decision logic of a headless Wayland compositor, verified with Verus.

`src/` is the library. Each module states its behaviour in `requires` /
`ensures` contracts over mathematical models (`Seq`, `Map`, integers) and
proves it:

- `surface_id`: wire-visible toplevel ids, a cyclic scan that never hands
  out 0 and visits every other id once per cycle.
- `frame_clock`: fixed-rate per-surface frame clocks that skip missed ticks
  without drifting off their phase.
- `input_clock`, `keyboard`, `text_input`, `seat`: input timestamps,
  modifier masks, text synthesis on US-QWERTY, `zwp_text_input_v3` state,
  touch ids and scroll frames.
- `clipboard`, `dnd`: selection MIME types and aliases, clipboard read
  routing, drag-and-drop action negotiation.
- `pixels`: SHM geometry validation and row packing, pixel format
  conversion (BGRA, NV12, 2:10:10:10, DMA-BUF planes), dma-buf feedback tables.
- `geometry`, `timing`, `outputs`, `configure`, `cursor`, `popup`,
  `foreign`, `process`, `frames`: sizes and damage, the presentation clock,
  per-window screens, configure payloads, cursors, popup grabs,
  `xdg-foreign` handles, `/proc` parsing and process ancestry.
- `commands`, `table`: the command handler as a step function from state
  and command to the next state and the Wayland sends that carry it out,
  with steps for a toplevel's commit and its destruction, and their laws
  (text synthesis restores the modifier masks, a refocus is silent, a
  clipboard offer is read back under its generation, released modifiers
  are no longer held, the pointer and a browser drag are left once, a
  destroyed toplevel's id is forgotten and a reused one entered afresh, a
  density change re-enters the keyboard holder on the next commit, once).

Collections keyed by ids (frame clocks, output slots, touch contacts, the
command state's tables) are vectors with a no-duplicate-key invariant:
vstd's `HashMap` contracts hold only for hashers it knows to be valid
(std's `RandomState`); for the `rustc-hash` hasher that fact could only be
assumed, and the crate assumes nothing.

`app/` is the unverified edge around it: clock reads, `/proc` and
`/dev/urandom`, memory-mapped buffers, the frame clock thread, the
floating-point damage mapping, conversions to the Wayland enums, and the
host side of the command loop, which measures each command, runs the
step, and performs the returned actions.

`tests/` exercises the library on concrete values.
