# novel_downloader

Downloads web novels chapter by chapter from a few Vietnamese reading sites
(metruyenhot, khodocsach, xtruyen) and prepares them for packaging as an EPUB.

The library in `src/` is written in Verus: functions state their results in
their contracts, and Verus proves the code meets them. Where a result comes
from an outside crate (HTML selection, regular expressions, URL handling,
Unicode normalization, decoding), the contract speaks of a named result of
that call rather than spelling it out. Readings of the monotonic clock are
not described at all; every recording method that reads it has a counterpart that
takes the instant as an argument and is stated exactly.

- `source/` — the site adapters: the registry that maps a URL to its site,
  and for each site the parsing of its pages or API answers into novel
  metadata, chapter indexes and chapter text.
- `crawler/`, `runner.rs`, `execution.rs`, `session.rs` — what a run decides:
  chapter files and the existing-file policy, request pacing and retries,
  the retry-or-abort loop around failed chapters, exit statuses and reports.
- `epub/` — the XHTML, navigation and package documents of the book.
- `ui/` — the wizard's routing and answers, the editor prompt and the
  progress screen's bookkeeping.
- `utils.rs`, `text.rs`, `order.rs` — text normalization, string helpers and
  stable ordering.
- `html.rs`, `pattern.rs`, `urls.rs`, `unicode.rs` — the calls into `scraper`,
  `regex`, `url` and `unicode-normalization`, each with the contract the rest
  of the library relies on.

`app/` is the command-line program around the library: arguments, HTTP,
files and plain terminal output. It runs the non-interactive mode only; the
interactive wizard's screens and the EPUB writer are not included, though
the wizard's decisions are in `src/ui/wizard.rs`. `tests/` exercises the library on concrete pages and
values.
