# icon_forger

Parametric icon generation and export to the platform icon formats (PNG,
ICO, ICNS, WebP), verified with Verus.

- `src/` is the verified library: the icon model and builder (`shapes`,
  `codegen`), the premultiplied pixmap (`pixmap`), the export layer with its
  straight-alpha conversion, resizing and ICO/ICNS assembly (`export`), SVG
  parsing (`import`), and format names (`lib.rs`). Calls into `image`, `ico`,
  `icns` and `usvg` stand behind small trusted wrappers whose contracts are
  stated in their doc comments.
- `app/` holds what the library cannot: the floating-point rasterizer
  (tiny-skia, kurbo, resvg), the serde and thiserror forms of the types, and
  the `wasm_bindgen` entry points.
- `tests/` exercises the library with the real outside crates linked.
