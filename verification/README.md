# photosquid

The document model and editing rules of a small vector editor, verified with Verus.

- `src/` is the verified library: the world of objects and its layers (`ocean`,
  `layer`, `squid`), selections and what the editor does with them (`selection`,
  `app`, `options::tab::layers`), undo history (`history`), values that move towards
  their latest setting (`smooth`), small collections and helpers (`linear_set`,
  `accumulator`, `bool_poll`, `capture`, `frame_pacing`), and hex color parsing
  (`raster_color`, `color`, which calls the `raster` crate).
- `app/` is the host side that works on floating-point numbers, the clock and file
  dialogs: cameras, colors, shapes' data, easing.
- `tests/` runs the library on concrete values.
