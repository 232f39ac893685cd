# Layer Kit

Shared infrastructure of the layer servers: the seam to a model provider, the
platform-to-tool token, the rules of the MCP entrypoint, identifiers and errors.

- `src/` is the library. Every function in it is verified by Verus against the
  contract above it; the laws are the public proof functions named `law_*`. The
  items marked `external_body`, `external_type_specification` or
  `assume_specification` are what is taken on trust of other crates.
- `tests/` runs the library on concrete values.
- `app/` is the host around it: the HTTP client and server, the SQLite store, the
  environment and the clock.

## Updating to 0.2.0

Before the first restart, back up every service's `{TOOL}_DB`. Opening a store
irreversibly drops the unused `events` table.

Dropping the table does not shrink the database file. After the restart, run
`VACUUM` manually on each database if reclaiming disk space is desired.
