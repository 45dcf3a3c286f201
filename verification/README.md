# domain_search

The decisions behind a terminal tool that checks a name's availability
across 20 TLDs (RDAP) and compares registrar prices, written in Verus with
their contracts proved.

- `src/` — the verified library:
  - `config` — the TLD, registrar, URL-template and preferred-registrar
    tables; search URLs; preference weighting.
  - `pricing` — the published price data, the per-TLD tables built from it,
    the best offer after preference weighting, price and age texts, cache
    freshness.
  - `search` — a result per TLD, search counts, RDAP status meaning, sort
    price.
  - `sorting` — the three result orders and a stable sort by them.
  - `app` — the screen state and what each key press does.
  - `ui` — what each part of the screen shows, apart from drawing it.
  - `table`, `order`, `text` — a text-keyed map, lexicographic order, and
    text operations (string replacement, trimming, decimal notation).
    The map is written here rather than taken from std: vstd specifies
    std's `HashMap` only for keys that obey its key model, which it
    asserts for integer keys and not for `String`, so a `HashMap<String, _>`
    would give the contracts nothing to build on.
- `app/` — the program: terminal, network, disk cache, browser, and the
  conversion of the feed's dollar prices to cents.
- `tests/` — tests of the library.

Prices are whole US cents in the library; weighted prices are in
hundredths of a cent, so that the 5% preference compares exactly.
