# Threadline

Threadline bridges local `/v1/responses` requests to Codex upstream websocket sessions. The library
in `src/` holds its logic, verified with Verus; the program in `app/` puts sockets, processes, files
and the command line around it.

## The library

| Module | What it does |
| --- | --- |
| `text`, `json` | Texts and JSON documents over mathematical models. Every operation of the standard library and of `serde_json` that is believed rather than proved stands here. |
| `errors` | Errors, their HTTP status and the document that reports them. |
| `models` | The models that can be asked for, by profile. |
| `config`, `cli` | Settings, their bounds and defaults, and the settings of a second listener. |
| `auth`, `identity` | The search for credentials, the keyring account, the identity of the installation. |
| `codex_ws` | Upstream sessions and the request that opens a connection. |
| `ws_pump` | The pump of a connection: bounded buffering, keep-alive challenges, deadlines. |
| `registry` | Retained sessions, the response markers that lead to them, and the leases on them. |
| `tools`, `jobs` | The bridge's own tools, and background jobs: admission, retention, output, commands. |
| `responses` | Reading and routing requests, preparing what goes upstream, translating what comes back. |
| `http` | What the other routes answer. |

Functions named `law_*` state what holds of several functions together: that a completed response
can be continued, that a buffer never exceeds its limits, that nothing of the bridge's own tools
reaches the client, that the output of a job keeps the latest text.

Time enters the library as a number of nanoseconds, and whatever happens outside comes in as an
event. The state machines (`responses::translation::ResponseStream`, `ws_pump::UpstreamPump`,
`jobs::command::CommandRun`, `auth::AuthSearch`) answer each event with what is to be done next; the
program does it and reports back.

## The program

`app/main.rs` starts one or two listeners. `app/services.rs` opens connections, `app/turns.rs` streams
answers, `app/socket.rs` drives a websocket, `app/jobs.rs` runs processes, `app/credentials.rs` and
`app/installation.rs` read files and the keyring, `app/command_line.rs` is the command line.
