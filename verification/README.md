# gofi

A window switcher for GNOME on Wayland: it lists the open windows through the
"Window Calls" GNOME Shell extension (via `gdbus`), filters them with the clangd fuzzy
matcher of `fuzzy-matcher` as the user types, and focuses the chosen one.

`src/` is the verified library (Verus):

- `window_switcher` — the switcher's state: listing, fuzzy filtering and
  ranking, selection with wrap-around, scrolling, the selected window.
- `gdbus` — the calls made on the extension, the `gdbus` command line, and
  the extraction of the JSON payload from what `gdbus` prints.
- `input` — what each key does, and key-repeat bookkeeping.
- `layout` — how many items fit, which rows are drawn where, the search bar
  text, and which output size the window is scaled from.
- `rendering` — which characters are drawn and highlighted, font fallback,
  pixel offsets and alpha blending.
- `fonts` — reading the desktop font setting, and the order fonts are tried in.
- `fuzzy` — the call into `fuzzy-matcher`.
- `text` — character-level string operations (`trim`, `find`, `replace`).
- `laws` — properties relating several operations.

`app/` is the program around it: the Wayland window and event loop
(`smithay-client-toolkit`), drawing with `tiny-skia` and `ab_glyph`, font
loading with `fontdb`, running `gdbus` and decoding its JSON with `serde_json`.
