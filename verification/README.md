# HostPilot

HostPilot (`hp`) keeps a list of SSH servers under short aliases, connects to
them, installs public keys on them, and copies files to and from them over SFTP.

- `src/` is the library. Everything the program decides is here, with contracts
  that Verus proves: how requests are read and checked, what a key on the
  keyboard does and what the screens show, how servers are stored and upgraded,
  what a transfer does next after each event, when an attempt is repeated, and
  what is told at the end.
- `app/` is the program around it: the command line, files, the database, the
  network, threads and the terminal. It does what the library asks for and hands
  back what happened.
- `tests/` runs the library on concrete values.

A course of events (a transfer, an upload worker, the download of an entry, the
installation of a key, an upgrade) is a state machine: `advance` takes what
happened and says what to do next, and its contract gives the next state and
step exactly. What holds of such a course as a whole stands beside it as a
public proof function.

Calls into other crates from `src/` are few and small: the clock and its
formatting (`chrono`), JSON text (`serde_json`), coloured text (`owo-colors`),
and two functions of the standard library. Each states what it claims of the
call.
