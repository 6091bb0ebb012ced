# mnemosyne

Mnemosyne is an agent that works by reading, writing and running Clojure
functions. This crate is its verified core, written in Verus:

- `editor` — structural edits of `defn` forms in Clojure source: a syntax
  tree built from what cljrs-reader reads (`ast`, `reader`), a byte-level
  scanner used when the source does not read (`scan`), the edits themselves
  (`edit`), a zipper over the tree with a depth-first `defn` search (`zipper`)
  and turning a tree back into text, with replaced nodes substituted in place
  (`unparse`). For a source that reads, the contracts state the text each edit
  produces from the forms the reader gives (the reader's result is named, not
  restated); for one that does not, from the bytes alone. Editing is proved
  deterministic, edits compose, and the laws of the zipper (moves that undo
  each other, navigation that keeps the root) and of unparsing (a tree read
  from a source gives that source back) are proved.
- `core_functions` — the registry of function templates, keyed by `ns/name`.
- `storage`, `search` — values of the code store and the search index, and the
  reading of `git verify-commit --raw` output.
- `execution` — the native filesystem builtins' decisions: how arguments are
  read, listings sorted by name (a verified insertion sort), the depth-first
  walk as a state machine, and the entries and error texts they deliver;
  and Clojure values (a double held as its printed text) with their printing.
- `inference`, `interface` — the tools offered to the model, the transcript
  kept with a model and the request for each turn, the turn-by-turn
  decisions of a run, the plan for each tool call (`define_function`
  included: the appended source and the functions it indexes) and the result
  that answers it, the choice of provider, the translation to and from
  provider wire shapes, and what a provider's reply (status, body) comes to.
- `mcp_core` — routing of MCP requests: the `initialize` handshake with
  version negotiation, `ping`, `tools/list`, `tools/call` and JSON-RPC errors.
- `mcp_server` — the server's command line.

`app/` holds what Verus does not check: serde forms of the library's types,
the git repository and Tantivy index (I/O), the filesystem reads of the shell
builtins, running `git` and the tools, the HTTP requests to the model
providers, the MCP stdio transport, and the float-valued
parts (search-score merging, the `f64` form of Clojure values).
