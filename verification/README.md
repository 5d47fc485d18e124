# unified_audit

Post-build audit rules for static HTML sites, written in Verus: SEO metadata,
accessibility, images, internal links, JSON-LD structured data and the loading
order of `<head>` elements.

- `src/` is the verified library. Each audit takes what scraper, regex and
  serde_json compute (behind small trusted wrappers in `html.rs`, `pattern.rs`,
  `json.rs`, `paths.rs`, `text.rs`) and its contract states the exact list of
  findings over spec functions.
- `app/` is the command-line tool: argument parsing, walking the build
  directory, parallel file reading, coloured and JSON output, and the
  floating-point percentage of the ordering score.
- `tests/` runs the library on concrete pages.
