# ariel_school

A school-level, Arduino-style API for boards running Ariel OS, and the logic
of the school IDE that goes with it, verified with Verus.

`src/` is the verified library:

- `hal`, `gpio`, `pio`, `sketch`: the board API. Every peripheral access is
  recorded, in order, as a `HalOp` in a `Hal` trace; contracts state exactly
  which operations each call records (pin routing, the bit order of
  `shift_out`, the GRB word of a WS2812 pixel, ...).
- `text`: character-sequence search, trimming and replacement, specified
  with the meaning of `str::find`, `str::trim` and `str::replace`.
- `assistant`: cutting the code out of an assistant reply and completing it
  into a sketch for the editor.
- `highlight`: colouring of sketches in the editor.
- `sketch_macro`: which items the `#[school_main]` and `#[school_dual_main]`
  attributes turn into the set-up block and the loops.
- `chat`, `laze`: the conversation with the local model and the laze build.

`app/` holds what cannot be verified: the driver layer that performs the
recorded operations, the token-stream expansion of the entry-point macros
(syn/quote), and the egui IDE with its network and process I/O.
