# lucie

The verified core of the lucie UI toolkit's text and platform helpers,
written in Verus. Verus proves the functions in `src/` against their
contracts; the few calls into std and outside crates go through small
trusted wrappers whose contracts say what their documentation promises.
Requests are described as plain values (`RequestParts`), which `app/`
turns into `http` requests; the `http` crate's own request builder is
described by what it holds (an error, or the redirect policy among its
extensions).

Layout:

- `src/` — the verified library:
  - `styled_runs` — cutting text into styled runs from highlight ranges,
    checking that run lengths tile a text, and laying runs end to end;
  - `text_element` — the measured layout record of a text element
    (length, text, wrapped text), the index logic of clickable text and
    its mouse press, release and hover steps;
  - `select` — cursors and selections;
  - `hinting` — slot bookkeeping of the hinting-instance cache (LRU);
  - `font_config`, `font_family`, `font_names` — font features, fallbacks,
    generic family names and the sorted list of offered families;
  - `glyph` — glyph keys and conversions between alpha and RGBA images;
  - `log_location` — the crate path and module target of a logged error;
  - `file_url` — local paths from `file://` URLs;
  - `http` — requests as plain values, the choice of proxy, URL
    building and key redaction;
  - `serial`, `layout_id`, `display`, `atomic_counter`, `common` — small
    helpers (serial tracking, node ids, display UUIDs, counters, hashing).
- `tests/` — tests run against the compiled library.
- `app/` — the thin unverified layer: environment and clock access,
  logging, file-system resolution, the retry loop around the atomic
  counter, and the floating-point helpers.
