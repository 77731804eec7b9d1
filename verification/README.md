# tetris_core

A falling-block puzzle game whose rules, engine and multiplayer bookkeeping
are written in Verus and proved against their contracts.

- `src/` is the verified library: pieces and the rotation system with its
  kick tables, the board and line clears, attack and scoring rules, both lock
  delays, the seeded engine and its fixed-tick simulation, the packets of the
  direct and relayed sessions, the peer-to-peer session driver, the relay's
  rooms and its answer to every client packet, the terminal client's screens,
  key repeat, input batching and server reconciliation, and a computer
  player's move queue.
- `tests/` runs the library on concrete games and sessions.
- `app/` holds what stays outside the proofs: the terminal client's main
  loop and drawing, the settings file, and the error types with their
  messages.

Calls into the `crc` crate (the state hash), into `instant` and std's
clocks, and into std's upper-casing (room codes) go through small wrappers
whose contracts are stated beside them, not proved.
