# localref

Localref keeps a reference library on disk: every item is a directory under
`All/` holding its files and a `metadata.toml`, and categories are directories
under `Cat/` whose entries link to item directories.  A daemon indexes the
library, files connector imports by rules, and serves a REST API and a
Zotero-connector compatible endpoint.

## Layout

- `src/` is the library, verified with Verus.  Its modules:
  - `types`, `model`, `error`: item ids, category paths, metadata records and
    the error vocabulary.
  - `text`, `ordered`, `setmap`, `json`, `calendar`: string, ordering, map,
    JSON-value and date helpers with their specifications.
  - `platformfs`, `paths`, `lock`: NTFS-safe names and the library layout.
  - `import`, `connector`, `sessions`: building metadata from connector
    payloads and files, unique names, and routing connector uploads to items.
  - `metadata_edits`: edits of `metadata.toml` text in place through
    `toml_edit` (category membership and tombstones, plugin `extra` values).
    The contracts fix the edited entries of the document; that comments and
    formatting elsewhere survive is what `toml_edit` does, and is checked by
    tests only.
  - `manifest`, `storage`, `rules`: category manifests, index documents,
    search, category listings and classification rules.
  - `daemon`, `events`, `pending`, `health`: the task queue and pause modes,
    event ids, pending imports and health state.
  - `config`, `ffi`, `client`, `rest`, `plugins`, `logging`: configuration,
    settings forms, client request paths, REST request rules, plugin actions,
    the log ring buffer and log rotation.
- `tests/` exercises the library on concrete values.
- `app/` is the program around it: command line, configuration files,
  filesystem work, the HTTP servers and the `tracing` log layer.
