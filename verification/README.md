# namma_dsl_rs

Storage code generation for DSL specs, as a verified library with a thin
command-line front end.

- `src/` — the library, verified with Verus:
  - `types/storage.rs`: tables, fields, queries, enum types and indexes, with
    their views;
  - `config.rs`: the generator configuration (output paths, generators, extra
    default fields, type mappings);
  - `yaml.rs`: the YAML document model that the parser reads, read from
    text with serde_yaml;
  - `parser/storage.rs`: storage specs to table definitions;
  - `generator/sql.rs`: fresh and incremental SQL migrations;
  - `generator/migration_laws.rs`: that scanning a migration the generator
    wrote finds its columns again, so an incremental run over a fresh
    migration, or over its own output, changes nothing;
  - `utils.rs`: case conversion, wrapper-type recognition, type mappings,
    file state decisions;
  - `text.rs`: trimming, splitting, joining, words, lines and replacement.
- `app/` — the `namma-dsl-rs` command: argument handling, walking the
  repository, git, reading and writing files, TOML decoding.
- `tests/` — tests of the library on concrete specs and migrations.
