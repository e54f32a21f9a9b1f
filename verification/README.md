# baml_engine

Verified JSON Schema generation for the types of a BAML program, and the
dispatch layer over its primitive LLM client providers.

- `src/json.rs`: a JSON value type (`JsonValue`), its model (`Json`) and the
  object operations schema generation uses; members keep insertion order and an
  insert on an existing key replaces its value in place.
- `src/field_type.rs`: field types, their display names and optionality.
- `src/ir.rs`: the enums, classes and functions of a program.
- `src/schema.rs`: the `WithJsonSchema` trait, its implementations, their
  specifications and the laws proved of them.
- `src/provider.rs`: the primitive providers, the choice of client constructor
  per provider, and the orchestration of a primitive client.
- `app/lib.rs`: conversion to and from `serde_json` values.
