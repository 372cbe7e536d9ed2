# dozed

A lightweight idle management daemon for Wayland compositors that implement the
ext-idle-notify protocol. It runs commands when the user becomes idle or active
again, around sleep, and when the session is locked or unlocked. While a window
is fullscreen, idle commands are suppressed, unless it is told to ignore such
windows.

The logic is a library, verified with Verus; the daemon around it is ordinary
Rust.

- `src/` is the library. Nothing in it reaches outside.
  - `args`, `events`, `words`, `config_file`: reading the command line and the
    config file into a `config`.
  - `report`, `startup`: what is printed, and what the settings lead to.
  - `app`: the state of a session, and what each event does to it.
  - `event_loop`: the loop as questions and answers, with effects in between.
  - `callbacks`, `log`, `process`: signals and reports, log lines, commands.
  - `laws`, `timeout_laws`: what holds of a session whatever happens to it.
  - `report_laws`: what is printed of the settings can be read again, where `{:?}`
    changes nothing in a command but the double quotes and the backslashes.
  - `number`, `text`: decimal numbers and plain text.
- `app/` is the daemon: it asks Wayland and logind, runs commands and reads
  files, and performs the effects that the library hands out.
- `tests/` holds the tests of the library.
