# rundelta

`rundelta` records what a Linux command did, keeps the record in checked storage and
compares two records. The logic is a library that Verus verifies; a small program
around it talks to the operating system.

## Layout

- `src/parse` reads `strace` output: line syntax, the audited system call flags, file
  system contexts, task generations and the timeline of events.
- `src/capture` decides how a recording goes: limits, signals, the version probe, the
  supervision of the collector and the reduction of all facts to one result.
- `src/store` holds the contracts of stored records, their checksums, the order in
  which a record is published and read back, and the index of records.
- `src/diff.rs` and `src/report.rs` compare two runs and present the comparison.
- `src/model.rs`, `src/output.rs`, `src/io.rs` and the rest are what these share.
- `app` is the program: arguments, files, processes, signals and JSON.
- `tests` runs the library.

What holds of several functions together is stated by public proof functions: of parsed
traces in `src/parse/laws.rs`, `certainty.rs`, `sharing.rs`, `origin.rs` and `counts.rs`,
of records from their publication to their loading in `src/store/roundtrip.rs`, and
elsewhere beside the functions that they speak of.

## Trust

The contracts of the functions that call the standard library, `libc` and `sha2` are
stated and not proved; each says in its comment what it claims. The program checks
itself that it meets what the library's functions require.
