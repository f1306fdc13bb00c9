# genko-ls

Body character counting for Genko Novel manuscripts (`.genko`), the
language server that shows the count on hover, and the Zed extension
logic that finds or installs that server.

- `src/` is the library, verified with Verus:
  - `markup` models the markup (line breaks, explicit ruby, Aozora
    annotations, HTML comments) and defines the body text of a manuscript
    and its body character count;
  - `novel` scans a manuscript (`body_lines`, `novel_metrics`);
  - `segmentation` counts extended grapheme clusters with
    `unicode-segmentation`;
  - `laws` states and proves what holds of the count as a whole;
  - `documents`, `hover` and `server` hold the language server's
    document store, hover text and command line;
  - `extension` holds the Zed extension's platform assets and the steps
    that find, reuse or install the server binary.
- `app/` runs the server over stdio (tokio, tower-lsp-server) and holds
  the Zed extension glue (zed_extension_api).
- `tests/` runs the library on concrete manuscripts.
