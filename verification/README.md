# fiyat_arama

A terminal tool for exchange rates, fuel prices by city, product search and
page metadata inspection, with its logic written and proved in Verus.

- `src/` is the verified library:
  - `metin` — trimming, prefix and ASCII case-insensitive comparison, joining,
    the last segment of a schema URL;
  - `json` — JSON values parsed by `serde_json`, held as a tree of the
    library's own type;
  - `jsonld` — the product or article that a page's JSON-LD describes;
  - `html` — the elements of a page that `scraper` selects, as plain values;
  - `benzin` — the city list and the price table of the fuel price pages;
  - `sozluk` — a string map kept in key order (the OpenGraph tags);
  - `inceleme` — URL validation and the inspection of a page;
  - `gorunum` — headings, help text, demo rates and the inspection report rows;
  - `komut` — the commands, the menu and command-loop decisions, tab completion.
- `app/` holds the command line, the prompts, the HTTP requests, the spinner and
  the tables.
- `tests/` runs the library on concrete pages, JSON texts and command lines.
