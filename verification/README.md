# pg_rows

Rows of PostgreSQL query results, and the decisions of the `FromRow` derive,
written in Verus with their contracts proved.

- `src/index.rs`: selecting a column by position or by name (exact match first,
  then ASCII case-insensitive); `src/sealed.rs` keeps `RowIndex` to this crate's
  types.
- `src/row.rs`: `Row` and `SimpleQueryRow`, built from a data row whose field
  count must match the columns; typed and text access to values.
- `src/wire.rs`: the data row as `postgres-protocol` parses it, and the value
  conversions of `postgres-types`.
- `src/case.rs`: the `rename_all` rules (`heck` and std case conversions).
- `src/overrides.rs`: the `#[postgres(...)]` attributes.
- `src/derive.rs`: what `#[derive(FromRow)]` generates from: field columns, a
  private prefix no input identifier begins with, and the generated bindings.
- `src/error.rs`, `src/text.rs`: errors and their messages; decimal numerals.
- `app/`: the derive's token handling and code generation (`syn`, `quote`,
  `proc-macro-crate`), the panicking typed `get`, and a displayable error.
