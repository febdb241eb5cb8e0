# iceberg

Two parts of an Apache Iceberg client, verified with Verus:

- `scan`: which manifests a table scan considers, which of them it reads, which of their entries,
  and the tasks that read data files.
- `transaction`: how a rewrite of files, such as a compaction, changes the manifests of a table,
  and what it commits.

`metadata` holds the data that both work on. The modules named `laws` state what holds of each part
as a whole.

The library in `src/` does no I/O. A function that needs something from storage hands out what is
to be loaded or written, and takes the outcome later on: see `ManifestSelectionRun`,
`DeleteFileRun`, `DeleteEntriesRun`, `ExistingManifestRun` and `PreloadedManifestRun`. What scan
planning asks of predicate evaluation stands in the trait `ScanServices`.

`app/` is the asynchronous code around the library: it loads, sends through channels, writes, and
commits.
