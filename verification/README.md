# axum-authentik-auth

Reads the identity that an authentik Proxy Provider forwards in
`x-authentik-*` headers, and decides group-based access, with the core logic
verified by Verus.

- `src/` is the verified library: header lookup and decoding
  (`headers.rs`), the `|`-separated group list (`groups.rs`), the user and its
  group checks (`user.rs`), group guards (`guard.rs`), the prefix
  configuration (`layer.rs`) and the error type (`error.rs`).
- `app/` is the axum/tower glue: extractors, the handler guard, the
  middleware layer, serde and the JSON error responses.
- `tests/` exercises the library on concrete values.
