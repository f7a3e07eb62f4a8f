# conduit

A Minecraft server and mod manager. The project logic is a Verus library
whose functions under `src/` carry contracts that Verus proves; the command
line in `app/` does the reading, writing, downloading and process handling
around it. A few calls into other code are trusted rather than proved, each
behind a small function whose contract states what is assumed of it: the
SHA-1, SHA-256 and SHA-512 digests, the regular expression that reads the
NeoForge version list, Unicode lower-casing, the `Debug` text of a string,
and `String::push`.

## Layout

- `src/text.rs`, `src/json.rs`, `src/strmap.rs` — strings, JSON string
  literals and the sorted string-keyed map the project files are held in.
- `src/lock.rs` — the lock of installed mods and its dependency graph.
- `src/domain` — loaders, addon types and addon sources.
- `src/engine` — paths, manifests, server configuration and
  `server.properties`, local mods, listing, removal, verification, the
  content-addressed store, modpack export/import/analysis, loader
  installation and server start, the console chat mode, dependency
  resolution against Modrinth, and the workflow checks.
- `src/loaders`, `src/inspector`, `src/errors.rs` — the loader names, jar
  inspection and errors of the first project layout.
- `tests/` — executable tests of the library.
- `app/` — the `conduit` command line.
