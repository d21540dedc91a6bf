# ql-link-lab

A laboratory around QuantumLink: a backend that pairs with a device and lets a model client drive
it over the Model Context Protocol (MCP), a companion for the first protocol version, and an
exercise of the device's FIDO interface.

`src/` is the library. It holds the decisions, as functions and small state machines over plain
values, with Verus contracts and proofs. `app/` holds the rest: sockets, HID devices, clocks,
tasks and the command line. `tests/` runs the library on concrete values.

| Module       | What                                                                        |
| ------------ | --------------------------------------------------------------------------- |
| `mcp`        | The MCP server: sessions, posts, sampling requests, the chat transcript      |
| `rpc`        | JSON-RPC messages, the tools, sampling requests and replies                  |
| `event`      | Events, transcript rows and the status as JSON, and their frames             |
| `manifest`   | The answers to `initialize` and `tools/list`                                 |
| `auto_reply` | Answering the device's chat lines with the client's model                    |
| `session_id` | Random session ids and the path that a client posts to                       |
| `json`       | JSON values, as serde_json holds them                                        |
| `transport`  | Chunks on a byte stream, each behind its length                              |
| `session`    | Timing, echo check and benchmark of a session                                |
| `pairing`    | Pairing tokens and device identities in hexadecimal                          |
| `companion`  | The steps of the companion of the first protocol version                     |
| `ctaphid`    | FIDO messages in fixed-size HID reports                                      |
| `u2f`        | U2F commands, replies, registrations and authentications                     |
| `fido`       | The FIDO exercise, step by step                                              |
| `crypto`     | SHA-256 and ECDSA over P-256                                                 |
| `text`       | The few text formats and cuts that all of this needs                         |
| `bytes`      | Big-endian numbers                                                           |

The outside crates are called through small functions whose contracts are taken on trust; each
says in its doc comment which function it stands for and what is claimed of it.
