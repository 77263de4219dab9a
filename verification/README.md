# sherlock

The core of the Sherlock application launcher as a verified library.

- `src/` holds the logic, each function with a contract proved by Verus:
  query matching and scoring, command-line splitting, variable filling,
  Pango markup, path handling, the configuration and its flags, key
  bindings, calculator and colour requests, the clipboard, calendar events,
  the pomodoro countdown, scripts, logging and the launch counter.
- `tests/` runs the library on concrete values.
- `app/` is the plain Rust around it: directories and files, spawning
  programs, running scripts, the configuration file formats, and the
  floating-point parts (colour spaces, search scores, unit factors,
  easing curves).
