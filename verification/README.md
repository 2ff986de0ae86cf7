# toad_core

The core of Toad, a manager of many code projects: the records that the
other parts of the tool share, where Toad keeps its state, and how it finds
the workspace. The library is written in Verus and its functions carry
contracts that are proved.

- `src/` is the verified library: paths and their joining, the order of
  texts, maps keyed by text, tag sets and the tag registry, the global
  configuration and its directory layout, the migration of legacy layouts,
  stack strategies and their ordering, diagnostics and their counts, token
  budgets, the workspace fingerprint, and workspace discovery as a sequence
  of decisions on what the environment answers.
- `app/` reads and writes the JSON and TOML files, asks the environment and
  the file system, and holds the serializable copies of the records and the
  records that carry floating-point measurements.
- `tests/` runs the library on concrete values.
