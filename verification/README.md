# slick

Foundation types for composable components, verified with Verus.

- `src/registry.rs` — `TypedStruct` (type URL + JSON value), `TypedRegistryBuilder`
  and `TypedRegistry` (type URL → factory → instance), `RegistryError` and its message.
- `src/factory.rs` — the boxed factory closures a registry holds, and how their
  behaviour is described.
- `src/order.rs` — byte-wise string equality and order, and the sort used to list
  type URLs.
- `src/laws.rs` — properties that relate the registry's operations.
- `src/manifest.rs` — `Manifest`, the structural surface of a component.
- `src/json.rs` — checking that a text holds one JSON value.
- `app/` — serde forms of the types, and the Python (PyO3) and JavaScript
  (wasm-bindgen) bindings.
