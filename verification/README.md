# ez_migrations

The core of ezMigrations, a companion for EF Core migrations that knows
about git branches, verified with Verus.

- `src/` — the verified library. Parsing EF Core migration sources
  (`csharp`, `parser`, `sql_object`) and the law that injected custom SQL
  reads back (`readback`); interpreting `dotnet ef` and `git` output
  (`dotnet`, `git`); planning the managed branch switch and the squash
  (`branch_switch`, `squash`); the saved-project configuration (`state`);
  connection strings and the OS keyring (`db_history`); diagnostics, MCP
  resources, terminal bootstrap scripts and file-watcher decisions
  (`diagnostics`, `calendar`, `mcp`, `terminal`, `watch`, `reads`, `ops`).
  `text` and `paths` hold the string and path specifications they share.
- `app/` — a headless MCP server around the library: process runs,
  file-system access, persistence, the HTTP transport and the watchers.
- `tests/` — tests of the library on concrete values.

Run `verus` on `src/lib.rs` to check the proofs.
