# ollama-wsock-connector

A client that bridges a remote WebSocket service to a user's local Ollama instance. It dials out
to the service, waits for chat requests, runs them against the local Ollama HTTP API and streams
the generated tokens back over the same connection.

`src/` is the library: what the connector decides and computes, with contracts that Verus proves.
Where it calls `toml_edit`, `url`, `uuid`, `reqwest`, `tungstenite` or a text function of the
standard library, a wrapper states what the call does. Those statements are believed, not proved;
each says in its doc comment what it claims. `app/` is the program around the library: command line,
logging, files, sockets, and the serde side of the messages. `tests/` runs the library.

| Module      | What it holds                                                                  |
| ----------- | ------------------------------------------------------------------------------ |
| `protocol`  | the messages between service and connector                                     |
| `config`    | settings from overrides, file and defaults, and when an identifier is made up  |
| `document`  | adding the identifier to the configuration file                                |
| `urls`      | URLs in their normal form                                                      |
| `ndjson`    | cutting a byte stream into lines                                               |
| `ollama`    | requests to Ollama and the meaning of its replies                              |
| `handler`   | the answer to one request of the service                                       |
| `session`   | one connection to the service                                                  |
| `relay`     | what a chat request comes to as a whole                                        |
| `reconnect` | when to dial again                                                             |
| `text`      | text helpers                                                                   |

The library never opens a file or a socket. Where something has to wait for the outside, it is a
machine: a function says what to do next, and the program tells it what came of that.
