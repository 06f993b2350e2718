# meshbbs

A bulletin board system for Meshtastic mesh radios, with its core written in
Verus: every function under `src/` carries a contract that Verus proves.

- `src/` holds the rules of the board: menus and commands, sessions and user
  levels, message areas, the public channel's commands and cooldowns, the
  radio link's framing, pacing, acknowledgement tracking and handshake, what
  the reader makes of each decoded radio frame,
  password and login checks, audit log lines, the web dashboard's
  configuration and schema, the TinyMUSH editor's checks (tokens, recipe
  edits), and the small games (slot machine, magic 8-ball,
  fortunes). Laws that span several functions are public proof functions
  next to the code they speak of (`lemma_*`).
- Calls into other crates (chrono, rand, argon2, uuid) go through a few small
  trusted functions whose contracts say what those crates document.
- `app/` is the command-line program around the library: argument handling,
  configuration files, reading recipe edits from JSON, and restarting the
  server process.
- `tests/` exercises the library on concrete values.
