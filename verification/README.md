# semver

Semantic versions and version requirements with Cargo's semantics, written
in Verus: parsing, canonical printing, precedence and requirement matching
are specified over abstract models and proved.

Layout:

- `src/chars.rs` — character classes, decimal digit strings, string helpers.
- `src/error.rs` — `Error`, `ErrorKind`, `Position` and the error messages.
- `src/identifier.rs` — `Prerelease` and `BuildMetadata`: syntax and order.
- `src/version.rs` — `Version`, `Comparator`, `Op`, `VersionReq`, their
  models, equality and version order.
- `src/parse.rs` — the parsers, each specified by a spec function that fixes
  the result and the error.
- `src/display.rs` — canonical text.
- `src/eval.rs` — matching of versions against comparators and requirements.
- `src/text_laws.rs`, `src/match_laws.rs`, `src/order_laws.rs` — properties
  of the library as a whole (round trips of text, matching, total orders).
- `app/lib.rs` — serde support: wrappers that serialize as the canonical
  text and deserialize through the parsers.
- `tests/` — executable tests.
