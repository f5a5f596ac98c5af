# exception-collector

Collects exceptions, finds those that are alike by signature, stores them, and
reports them to GitHub or to a collecting platform.

## Layout

- `src/` is the library, verified with Verus. It computes and decides, on plain
  values: no file, database, command or network is touched there.
- `tests/` are its tests.
- `app/` is ordinary Rust around it: the SQLite database, the environment, the
  command `gh`, HTTP, and the copies of types that serde reads and writes.

## Modules

| Module | What it holds |
|--------|---------------|
| `record`, `record_json`, `ids` | exceptions, batches, and their JSON |
| `normalize`, `signature`, `lines` | the signature of an exception |
| `buffer`, `buffer_laws`, `active`, `storage` | aggregation by signature, and the rows that store it |
| `dedup`, `collector`, `pipeline` | looking up signatures, scanning databases, cycles of reporting |
| `github`, `platform`, `issue`, `title` | the two reporters, and the texts of issues |
| `llm`, `channel`, `json` | classification by a language model |
| `retry`, `time`, `config`, `location` | retries, time, configuration, directories |
| `text`, `digits`, `encoding`, `error` | what the others share |

## What is proved, and what is believed

Each function states in its contract what it returns or changes. Promises that
span several functions are the proof functions whose names start with `law_`.

Calls into outside crates stand in functions marked
`#[verifier::external_body]`: their contracts are believed, and their doc
comments say what is claimed of the outside function.
