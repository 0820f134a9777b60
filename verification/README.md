# valence_utils

Verified helpers for the Valence packages, written in Verus.

- `src/config_response.rs`: the Duality `GetConfig` response types.
- `src/syntax.rs`: the parts of a Rust syntax tree that the macro helpers read
  (paths, types, attributes), held as plain values, with the path queries.
- `src/punctuated.rs`: separated sequences such as enum variants with their
  commas, and appending to them while keeping the separators as written.
- `src/macro_helpers.rs`: `has_skip_update_attr`, `get_option_inner_type`,
  `MacroArgs::parse` and `merge_variants`, each with an exact contract.
- `app/`: the code around the library that cannot be verified: JSON decoding
  with serde, and the `syn`/`quote` side of the macro helpers, which reads
  syntax trees into the library's shapes and prints the results. Error
  positions (spans) are attached there.
- `tests/`: tests of the library on concrete values.
