# mehoy

The verified core of a local, backend-agnostic model runtime, and the programs
around it: `mehoyd`, a daemon on a per-user endpoint, and `mehoy`, its client.

The library under `src/` holds every decision of the runtime as executable Rust with
contracts that Verus proves. It performs no I/O. Where the runtime alternates
between the outside world and a decision, the library is a state machine: it is told
what happened and says what to do next, and the program under `app/` does it.

| module      | what it decides                                                          |
|-------------|--------------------------------------------------------------------------|
| `id`, `event` | identifiers and lifecycle events                                       |
| `cancel`    | the life of a request: one cause for stopping it, one outcome             |
| `inference` | requests, parameters and results, and what makes them valid               |
| `stream`    | the events of a generation: one beginning, one end                        |
| `backend`   | a llama.cpp backend: its identity, channel, command line, start, probes, requests, and the reading of its event stream |
| `registry`  | model containers: reading a GGUF header, recording an artifact, noticing drift |
| `worker`    | supervision of a worker process: its states, startup, stop and log        |
| `transport` | the endpoint: where it is, who may use it, what occupies it               |
| `daemon`, `cli` | the two programs: command lines, routes, replies and exit codes       |
| `text`, `http`, `entropy`, `protocol` | what the others share                           |

Contracts speak of views: text is a sequence of characters, bytes a sequence of
bytes, a machine's state a plain structure, and each function's `ensures` says which
result and which next state follow from which input. Properties that span several
functions are public proof functions beside the functions they are about, for
instance that the events of a stream do not depend on how its bytes are cut
(`backend::sse`), that a container's later bytes are never read (`registry::gguf`),
that a file registered again gives its first record (`registry::records`), or that a
request's first outcome is its last (`cancel`).

What is believed without proof is small and named where it stands: the standard
library's text conversions (`text`), the operating system's randomness (`entropy`),
the standard status phrases (`http`) and SHA-256 (`registry::digest`).

`tests/` runs the library on concrete values. `app/` is ordinary Rust: sockets and
pipes, processes, HTTP, JSON and SQLite.
