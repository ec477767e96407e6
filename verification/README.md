# oxidemd

The verified core of OxideMD, a local Markdown viewer, written in Verus.

`src/` is the library. Every function in it carries a contract that Verus
proves; the calls that Verus cannot read (into std, `pulldown-cmark`,
`syntect`, `mathjax-svg-rs`, `mermaid-rs-renderer` and `usvg`, which
`resvg` brings) are wrapped in small trusted functions whose doc comments
say what is assumed of them.

- `events`, `parser`: Markdown text to the viewer's blocks and headings
  (pulldown-cmark's event stream, folded into blocks), plain text of blocks,
  heading anchors.
- `search`: query normalisation, matches, selection, highlighted segments.
- `document_loader`, `document_session`, `document_workspace`: fingerprints,
  the cache of parsed documents, reload decisions, open documents as tabs.
- `export`: the HTML page of a document, HTML escaping, `file:` URLs.
- `session`, `i18n`, `cli`, `status`, `theme`: stored settings and recent
  files, interface strings, command-line arguments, status messages and
  labels, interface colours.
- `render_jobs`, `math`, `diagram`, `svg`, `syntax`, `highlight_engine`,
  `renderer`: the bookkeeping of background rendering, formulas through
  MathJax and diagrams through the Mermaid renderer, image names and
  colours, code highlighting with syntect's bundled syntaxes and themes,
  and the view's non-drawing decisions.
- `top_bar`, `bottom_bar`, `search_panel`, `shortcuts`, `external_links`,
  `watcher`, `embedded_svg`: what the panels ask the application to do, the
  shortcut help, the handling of external links, which file events cause a
  reload, and the copyable source of embedded images.

`app/` is a small command-line front end: it prints help or the version,
exports a Markdown file as HTML, or prints a document's outline and text.
`tests/` exercises the library on concrete inputs.
