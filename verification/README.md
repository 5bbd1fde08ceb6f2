# gameui

Immediate-mode widgets for game tools, verified with Verus. Every widget takes a
rectangle, the frame's input and a style, adds shapes to a draw list and tells what
happened; its contract says exactly which shapes and exactly what.

- `src/` is the library. `scalar.rs` holds single-precision numbers by their bits,
  with arithmetic proved to round as IEEE 754 says; `geometry.rs`, `affine.rs` and
  `angles.rs` build on it. `draw_list.rs` and the `draw_*.rs` modules hold the draw
  list: shapes, clips, transforms, tints, images, text and debug scopes;
  `paint_order.rs` proves that its commands paint every element once, in the order
  of drawing. The other modules hold one widget, or one piece of interaction state,
  each.
- `tests/` runs the library on concrete input, and its arithmetic against the
  machine's.
- `app/` joins the library to what it leaves out: trigonometry, text shaping, scroll
  views and the byte layout of GPU buffers.

The laws of each widget stand in its module as proof functions whose names begin
with `law_`.
