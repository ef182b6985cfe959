# mkdr

A terminal markdown viewer with paging, search, themes and several open
files. The library in `src/` holds its logic, verified with Verus; `app/`
is the program around it (arguments, files, configuration, the terminal).

## Layout

- `src/text.rs` – characters, lines, whitespace, numbers.
- `src/style.rs` – colours, modifiers, styles, spans and lines as plain values.
- `src/ansi.rs` – stripping and parsing ANSI SGR sequences.
- `src/search.rs` – case-insensitive search, wrap-around match navigation,
  highlighting of matches.
- `src/theme.rs`, `src/palettes.rs` – themes: hex colours, named colours,
  element styles, the built-in palettes.
- `src/markdown.rs` – markdown events from `pulldown-cmark` as plain values.
- `src/highlight.rs` – syntax highlighting of fenced code with `syntect`.
- `src/render.rs` – rendering events into styled lines with a plain text per line.
- `src/screen.rs` – the line-number gutter and the kinds of raw markdown lines.
- `src/links.rs` – the links shown on a rendered line and which one `Enter` follows.
- `src/viewer.rs` – the viewer's state machine: keys, search, go-to-line,
  bookmarks, files, the status bar and what a frame shows.
- `src/config.rs` – configuration and how it combines with the command line.

Each public function states what it returns in its `ensures`; the laws of
the library (for instance that `n` always lands on a search match, or that
`]` then `[` shows the same file again) are public proof functions.

## Keys and behaviour worth knowing

- `r` and `R` both reload the shown file. The view of the markdown source
  has no key of its own; the library offers it as `App::toggle_raw`.
- `Enter` opens the link under the cursor with the system's opener: the
  renderer shows each link's and image's destination after its text, and the
  last destination starting at or before the cursor's column is opened (the
  first one on the line when the cursor is left of them all). The status bar
  then says whether it opened in the browser or the image viewer, or failed.
- Wiki links (`[[page]]`) are not recognised by the renderer, so `Enter`
  never moves to another file, and `Backspace`, which returns along the files
  left by following links, always reports that there is none.
- `Esc` while typing a search brings back the search that was active before.
