# lipgloss

Styles for terminal output: colors, text attributes, padding, margins,
borders, alignment and the layout of blocks of text, with the library's
behaviour stated in `requires` / `ensures` contracts and proved by Verus.

## Layout

- `src/` — the verified library.
  - `style/` — the `Style` type, its builders, getters and unsetters, the
    rendering pipeline (`stages`, `wrap`, `frame`, `sgr`, `render`), style
    comparison and inheritance, and `laws.rs` with the properties proved of
    styles.
  - `color.rs`, `renderer.rs` — colors and how they resolve for a terminal's
    color profile and background.
  - `border.rs`, `whitespace.rs`, `position.rs`, `align.rs`, `join.rs`,
    `size.rs` — borders, filler whitespace, placing and joining blocks.
  - `blending.rs` — one-dimensional gradients between color stops, with the
    mixing of two colors supplied by the caller.
  - `utils.rs`, `text.rs`, `strings.rs`, `security.rs` — measuring text,
    line handling, string building blocks, and the bounds on sizes.
- `app/` — what needs the process or floating point: the default renderer
  detected from the environment, the free functions that use it, CIELAB and
  CIELUV gradients, and the color adjustments computed in floating point.
- `tests/` — tests of the library.

Rendering functions take the renderer to use explicitly; `app/` supplies
the process-wide default. A `Renderer` is a plain value: a copy, such as the
one a style keeps, holds the settings it was made with, and changing one
renderer changes no other. Settings meant for the whole program are kept in
one place (in `app/`, behind a lock) and passed to the functions that render.
