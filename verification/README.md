# mechanix-keyboard

An on-screen keyboard for Wayland: a bar at the bottom edge of the screen, with a Handle
that shows and hides the keys above it. Layouts are squeekboard-style YAML files.

- `src/` is the keyboard as a verified state machine. It takes events as plain values and
  answers with what is to be requested, typed or drawn. Every function with a body has a
  contract, which Verus proves but for the one trusted function named below. The methods
  of `Scalar` and `Typeface`, which the program implements, have none.
  - `text`, `names`, `keysyms`: names, maps ordered by name, keysyms of characters.
  - `scalar`, `flow`, `extent`: the arithmetic of geometry, where keys stand, how far
    views reach.
  - `layout`, `keymap`: layouts, and the keys and views that they resolve to.
  - `virtual_keyboard`: keystrokes, modifiers and latches.
  - `state`, `window`, `sizing`, `input`, `render`: what each event does to the bar.
  - `laws`: what holds of the keyboard as a whole.
- `app/` is the program: it talks to the compositor, the renderer and the file system. It
  is built with the fallback layout in `resources/layout.yaml` and with the atlas and the
  icon dictionary that `assets::builder` generates.
- `tests/` runs the library.

Geometry is generic over the number type. The contracts say which expression each result
is, with every operation evaluated by that type; `app/` computes in `f32`. Laws that need
more of the numbers than that are proved for real numbers.

One function is trusted: `keysyms::keysym_from_char`, which calls
`xkeysym::Keysym::from_char`.
