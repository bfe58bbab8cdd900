# iris_agentic_dev_core

The logic of the `iris-agentic-dev` tools for InterSystems IRIS, written in
Verus: the functions in `src/` carry contracts, and Verus proves each body
against its contract (the one read of the clock, `ElicitationStore::now`, has
none: its value is whatever time it is).

## Layout

- `src/text.rs` — character-level string operations (trim, lines, split,
  number parsing and printing), each stated over `Seq<char>`.
- `src/deps.rs` — the calls into regex, urlencoding, serde_json, uuid, semver,
  tree-sitter and the parts of std that vstd does not specify. These are the
  trusted items: each doc comment says what its contract claims.
- `src/elicitation.rs` — the store of pending confirmation dialogs, viewed as a
  map from id to entry, with expiry.
- `src/skills.rs` — the skill and knowledge-base registry and the reading of
  Markdown front matter and titles.
- `src/manifest/` — the package manifest, dependency resolution decisions and
  the lock file text.
- `src/policy/` — which security checks run before a tool call, and in which
  order.
- `src/tools/` — the tool handlers' logic: document reads, writes and line
  edits (`doc`), globals (`global`), information, macros, debugging, generation
  and table details (`info`), source control (`scm`), search (`search`), and
  the local symbol scan over tree-sitter syntax trees (`symbols_local`,
  `syntax`).
- `src/cmd/` — the command-line commands' decisions and texts.
- `tests/` — tests run against the compiled library.
- `app/` — the command-line program: argument parsing, files, network and
  processes, handing plain values to the library.
