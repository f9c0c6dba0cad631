# iconic

The verified core of a folder-icon composer (a GTK application that puts a
picture on top of a folder icon).

- `src/naming.rs` — file extensions, names without their extension, MIME
  main types and the paths and names the application builds; with the laws
  that relate a name, its extension and its stem.
- `src/raster.rs` — images and pixmaps of the `image` and `resvg`
  (tiny-skia) crates as sequences and maps of plain values, and the calls
  made on them.
- `src/file.rs` — a loaded image file: how it is put together, its
  thumbnail and hash, and the pixmap-to-image conversion.
- `src/window.rs` — the window's decisions: which image a file replaces,
  which page is shown, when saving is allowed, which message is shown.
- `app/` — the GTK side: reading files, rendering SVG, dialogs and widgets.
- `tests/` — tests of the library on concrete values.
