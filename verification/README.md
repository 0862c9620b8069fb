# mpq_cli

The `mpq` command family for MPQ archives (list, extract, create, info,
validate, rebuild, compare, tree), split into a verified library and a thin
command-line program.

- `src/` is the library, verified with Verus: decoding of the subcommands,
  wildcard selection and ordering of entries, extraction and entry paths,
  validation outcomes with the CRC32/MD5 check, the info, comparison and
  rebuild reports, and the archive tree with its directory grouping and its
  printed layout. Calls
  into `wow_mpq`, `crc32fast`, `md-5` and std's path and string functions
  stand behind the trusted items of `archive_api.rs`, `checksum.rs` and
  `text.rs`.
- `app/` parses the command line, opens, reads and writes archives with
  `wow_mpq`, and prints what the library computed.
- `tests/` runs the library on concrete inputs.
