# wyrm

The verified core of the Wyrm RSS reader, written in Verus.

- `src/` is the library: exclusion filters, image sniffing and icon
  candidate selection, keyset and id pagination cursors, parsing of the
  `exclude` query parameter, OPML import/export planning, feed scheduling,
  expired-post bookkeeping, HTTP response limits and the desktop shell's
  navigation and embed rules. Verus checks every function against its
  contract; the few calls into `chrono`, `reqwest::Url`, `scraper`, `rand` and std
  that Verus cannot read sit behind small trusted wrappers whose doc comments
  say what is assumed of them.
- `tests/` runs the library against concrete values.
- `app/` holds what Verus does not see: the serde wire formats, the
  `feed_rs` model conversion, the `reqwest` client and the icon fetch loop.
