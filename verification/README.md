# price_engine

Quote engine for 3D printing jobs, verified with Verus.

- `src/` — the verified library:
  - `text`, `float_text` — the character-level model of the text operations
    the parsers use, and the syntax of numbers accepted by `f64::from_str`;
  - `gcode` — metadata from slicer comments in G-code (filament mass and
    length, filament type, print time);
  - `material`, `model`, `quote`, `pricing`, `engine` — the material catalog
    and the assembly of a quote (which values are used, which defaults fill
    gaps, when a quote is refused, discount steps and review limit);
  - `orca` — how the slicing worker's answer becomes model metadata;
  - `upload` — the HTTP front end's request rules: the upload form's fields
    (`material_id`, `infill_percent`, `supports`, `cost`,
    `base_fee`), file kind recognition, upload limits, error statuses and
    messages.
- `app/` — the HTTP service (axum), the slicing-worker client (reqwest),
  serialisable copies of the library's types, and the binary floating-point
  money arithmetic.
- `tests/` — tests of the library.

Floating-point quantities are held in the library either as the decimal text
they were read from (always accepted by `f64::from_str`) or as IEEE-754 bit
patterns; the arithmetic on them happens in `app/pricing.rs`.
