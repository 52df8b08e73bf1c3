# eternal_pixels

A UI suite for pixel tools, with its logic verified in Verus.

- `src/` is the verified library:
  - `styler/`: the CSS engine's property tables, values and keywords,
    element state and pseudo-classes, declaration blocks, the cascade's
    choice of winning declarations, and the ranking of matched rules.
  - `ui/`: modifier sets, keyboard shortcuts, widget behaviour (text
    editing, checkboxes, containers), inline style text, element
    attributes (class words, name/value pairs), where events go first,
    font load errors, and the element tree's shape with its hover, press
    and focus state.
  - `ink/`: status codes and errors of the stroke library bindings.
  - `fonts.rs`: the system font names tried for a CSS family.
  - `text.rs`: the text helpers the parsers share.
- `tests/` runs the library on concrete values.
- `app/` is ordinary Rust around the library: CSS parsing on `cssparser`
  and `selectors`, computed styles and layout in floating point, the
  toolkit's element tree with widgets and handlers, and the Skia backend.
