# vs

The core of `vs`, a version manager for SDKs and runtimes driven by vfox-compatible
Lua plugins and native (WASI) plugin descriptors, written in Verus. The functions
under `src/` carry contracts that Verus proves, except the few calls into outside
code (in `src/external.rs`, and `push_char` in `src/text.rs`), whose contracts are
trusted.

## Layout

- `src/` — the verified library.
  - `text`, `paths`, `order`: strings, paths and sorting, with their specifications.
  - `model`, `core_model`: plugin and application records and errors.
  - `registry`: the registry of available and added plugins (add, remove, search,
    resolve).
  - `versions`, `legacy`: version ordering and matching; `.tool-versions`, `.nvmrc`,
    `.sdkmanrc` and the settings that read them.
  - `tools`: backends of the build, tool-versions assignments, configured versions,
    what `use` and `unuse` do.
  - `shell`: activation scripts and the environment the shell hook exports.
  - `installer`: install layout, archive kinds, checksums.
  - `plugin`, `lua`, `lua_strings`, `html`: the plugin interface, native plugins, and
    the logic of the Lua plugin host and its helper modules.
  - `release`: self-upgrade targets and release assets.
  - `app_rules`: the decisions of the application layer.
  - `external`: the calls into outside crates (serde_json, sha2, sha1, md-5,
    scraper), each with the contract the library relies on.
- `tests/` — tests of the library.
- `app/` — the I/O around the library: files, downloads, archives, the Lua
  interpreter, serde forms.

Contracts that relate several functions are stated as `law_*` proof functions.
