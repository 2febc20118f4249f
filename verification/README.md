# pgenum_parser

This crate extracts PostgreSQL enum types from SQL, intended to allow static analysis of enum
definitions in SQL dumps (such as provided by Rails' `structure.sql`). Its core is written in
[Verus](https://github.com/verus-lang/verus): every function states what it returns, and the
statements are proved. What the proofs take on trust are two calls of std, in `digest`, by which
strings and lists of strings are hashed. Nothing is stated of the text that `{:?}` prints.

- `src/` is the verified core. `sql` turns parsed statements into a database of enum types,
  `builder` collects the types and rejects duplicates, `index` and `database` find them by name,
  `representation` holds the serialised form, and `laws` states what holds across functions.
- `app/` is ordinary Rust around the core: parsing SQL with `pg_query`, reading and writing RON
  and files, and errors with messages.
- `tests/` runs the core on concrete values.

```rust
let sql = std::fs::read_to_string("db/structure.sql")?;
let enums = app::from_sql("my_database", &sql)?;
println!("{:#?}", enums);

for enm in enums.enums {
    println!("Enum: {}.{}", enm.schema, enm.name);

    for value in &enm.values {
        println!("  - {}", value);
    }
}
```
