# jotline

The domain core of Jotline, a local single-user note service, written in Verus: its
contracts are proved, not only tested.

## Layout

- `src/` — the verified library.
  - `ids`, `common`, `error`, `notes`, `entities`, `capture`, `stream`, `ipc`, `tools`: the
    wire contract (entity ids and their prefixes, timestamps, the error envelope, the
    request and response types, the event stream envelope, the JSON-RPC messages of the
    sidecar, the agent tool registry).
  - `json`, `gendoc`: a JSON value and its model; the wire discipline applied to the
    generated OpenAPI document (nullable forms removed, `required` fixed) and the
    expansion of `$ref` references in tool schemas.
  - `server`: the decisions of the API process — authorization, handler errors, the
    search statement, the steps of note creation, index rows, configuration, and the
    sidecar's launch and boot sequence.
  - `text`: verified string helpers.
- `app/` — the process around the library: axum routes, SQLite storage, the event stream,
  the sidecar process, logging, and the contract generator (`jotline gen`). The serde and
  OpenAPI forms of the library's types live in `app/wire`.
- `tests/` — tests of the library on concrete values.

## Laws proved in `src/`

Among them: a note's index row reads back as the note; the creation steps never leave a
file without its index rows; a missing project writes nothing; the boot sequence is
verified only after the pong and the callback; the two ways to present the stream token
agree; the FTS5 phrase of a search text reads back as that text; the search statement holds
one parameter per placeholder; removing null forms leaves no nullable `oneOf` and no
nullable `type` anywhere, reports a removal exactly when the value changed, and removes
nothing the second time; the wire discipline leaves no null form in the document; a
successful `$ref` expansion leaves no `$ref` (for documents whose `$ref` values are strings);
reference cycles are reported as too deep.
