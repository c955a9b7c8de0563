# fileshare

Sharing files and folders with the hosts on a local network: a terminal
interface, a page for browsers, and downloads that can be paused and taken up
again.

`src/` is the library. It holds what the program decides and computes, and
every function of it is verified with [Verus](https://github.com/verus-lang/verus)
against its contract, but for those that hold a call into another crate or the
standard library, whose contracts are believed (see below). `app/` is the program around it: the terminal, the
network and the disk. `tests/` runs the library from outside.

| Module | What it holds |
|--------|---------------|
| `text`, `time`, `table`, `paths` | texts, times, tables by key, paths |
| `checksum`, `folder` | SHA-256, folders, archives |
| `shares` | the shares of this host and their index |
| `discovery` | the other hosts |
| `client` | a download as a state machine |
| `server`, `upload`, `page` | what the server answers |
| `config`, `tls`, `cli` | settings, the certificate, the command line |
| `tui` | keys, events, and what the terminal shows |

What the library promises as a whole stands in the proof functions whose names
begin with `law_`. What it believes of other crates stands in functions marked
`external_body`, in `assume_specification` items, and in the spec functions
without a body that name their results.
