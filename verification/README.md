# shmon

A minimal terminal multiplexer. A daemon runs a shell in a pseudo terminal and
keeps it alive; clients attach to it over a socket, see what it printed last,
and take part.

- `src/` is the library, verified with Verus: the packet protocol, the backlog
  of recent output, and the decisions of the daemon, the client and the command
  line. Its contracts and the `law_` proof functions state what holds.
- `app/` is the program around it: arguments, files, sockets, signals and the
  terminal.
- `tests/` runs the library on concrete values.

`src/buffer.rs` states, without proof, what the library takes from the `bytes`
crate, and `src/server/pty.rs` what it takes from `nix`.
