# oxc_zed

The logic of the Oxc extension for Zed, verified with Verus.

- `src/` is the library. `lsp` holds how a server's command, environment,
  initialization options and workspace configuration follow from the user's
  settings, and the per-worktree record of where each running server came
  from (`ZedLspSupport`, implemented by `ZedOxlintLsp` and `ZedOxfmtLsp`).
  `vite_plus` reads the source options, `binary_resolver` finds a standalone
  installation among the project directories. `json` and `str_map` model
  settings values as maps sorted by key; `text` and `path` hold string order,
  comparison and path joining.
- `app/` is the extension itself: the `zed_extension_api` callbacks, reading
  settings, Node and npm, and the conversions between serde's JSON values and
  the library's.
- `tests/` runs the library on concrete settings.
