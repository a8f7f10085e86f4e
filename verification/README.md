# Roven

Roven is a terminal project-memory assistant: it keeps conversations scoped
to a trusted project directory, lets a model inspect that directory through a
few local tools, and registers prepared projects for later use.

## Layout

- `src/` is the library, written in Verus. Its functions are verified
  against their contracts: the provider-profile document, endpoint
  and model validation, the interface state machine and its key handling,
  streamed provider responses, conversation replay, the workspace tools'
  path checks and results, repository inventories and code maps, storage
  validation, the project status report, and the transcript renderer.
  Calls into outside crates (`url`, `uuid`, `sha2`, `keyring`,
  `serde_json`, `unicode-width`, `pulldown-cmark`, `tree-sitter` and its
  grammars) and a few std functions go through small trusted
  wrappers, marked `external_body`, whose contracts say only what those
  crates document; results that take pages to describe are given a name
  instead.
- `app/` is the program around the library: command-line parsing, the
  terminal loop and drawing, HTTP streaming, files on disk and the worker
  thread. It hands the library plain values and acts on what it returns.
- `tests/` exercises the library with the real outside crates linked.
