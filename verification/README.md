# notecrumbs

A nostr opengraph server: it serves HTML pages, JSON and PNG cards for
nostr notes, articles, highlights and profiles named by NIP-19 identifiers,
reading them from a local nostrdb store and fetching what the store lacks
from relays.

## Layout

- `src/` is the library, verified with Verus. It holds the server's logic
  as functions on plain values, each with a contract:
  - `route`: request paths to routes and the reply for each format;
  - `render`: what a page needs, what is missing, what to fetch, and how
    arriving notes complete a page (`Completion`);
  - `debounce`: background refresh decisions and fetch keys;
  - `unknowns`, `relays`: unknown ids with relay hints, known relays;
  - `nip19`, `quotes`, `blocks`, `note`: identifiers, quotes and content;
  - `pages`, `profile_page`, `notecard`, `embed`, `article`, `stats`,
    `profile`, `card`: the HTML documents and the text of the PNG card;
  - `sitemap`, `format`, `text`, `escape`, `abbrev`, `urls`, `metadata`:
    sitemaps, dates, escaping and text helpers.
  Calls into `nostr`, `html-escape`, `hex`, `serde_json`, `pulldown-cmark`
  and `ammonia` stand behind small trusted wrappers whose contracts are
  stated in their doc comments.
- `tests/` runs the library on concrete values.
- `app/` is the server around the library: hyper, the nostrdb store, the
  relay pool (`nostr-sdk`), metrics, and the egui layout of the PNG cards.

The server expects `assets/` and `fonts/` next to its working directory.

The PNG cards are rasterized with `egui_skia` and `skia-safe`. Those two
crates are not listed in `Cargo.toml`: skia's dependency tree takes the
lock file past the 400 packages this project allows itself. `app/card.rs`
still calls them, so the server builds only once they are added back to
`[dependencies]`; the library and its tests do not need them.
