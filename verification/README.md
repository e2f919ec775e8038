# iceberg_transaction

Transaction actions on Apache Iceberg tables, verified with Verus:

- `manage_snapshots`: creating, moving and removing tags and branches. A
  branch can be fast-forwarded to a descendant of its head only.
- `rewrite`, `rewrite_operation`, `producer`: replacing data files by others in
  one transaction.
- `validator`: detecting what was committed since an action started, and that
  files to remove are gone.

`lineage`, `metadata`, `snapshot`, `refs`, `update`, `manifest` and `data_file`
hold the parts of a table that these work on. `ref_laws` and `rewrite_laws`
state what holds across calls. `ids` and `clock` call the `uuid` and `chrono`
crates; these calls are the only ones that are taken on trust.

The library does no input or output. Working out the manifests of a new
snapshot is a sequence of steps (`rewrite_operation::ManifestStep`), each of
which names a file to read or write; `app/` performs them on a store.
