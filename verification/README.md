# zippa_db

The logic behind a database client's screens, verified with Verus.

`src/` is the verified library:

- `text`, `sqltext`: character-level helpers and a tokenizer for stored SQL
  (strings, quoted identifiers and comments kept apart), with the identifier
  rewrite a rename needs.
- `db`, `sql`, `rebuild`, `schema_form`, `schema_editor`: the schema editor.
  What a table's column, index and foreign key rows become as `ALTER TABLE`
  statements on PostgreSQL, MySQL and SQLite, SQLite's copy-and-swap rebuild
  when its own `ALTER TABLE` cannot make the change, and the editor's cycle of
  loading, previewing and applying.
- `keyed`, `grid`: the result grid's state (staged cell edits, rows being built
  by hand, deletion marks, picked rows) with a specification model and the laws
  that connect its operations.
- `query`, `format`, `clipboard`, `layout`: how a value is shown, copied, and
  sized.
- `editor`, `tabs`, `switcher`: the query editor's requests, the session's
  tabs (their titles, files, and run status), and the quick switcher.
- `filter`, `filter_bar`, `search`, `plan`, `import`, `console`, `engine`,
  `panels`: the filter bar and sidebar filter, schema search, the plan tree,
  the import dialog, and the smaller panels.

`app/` holds what stays outside the proofs: floating point (column widths in
pixels, colour contrast, file sizes, numeric ordering) and the clock.
