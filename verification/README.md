# pelagos_tui

A terminal front end for the `pelagos` container runtime, with its decisions verified by Verus.

- `src/` is the library. It decides what to run, what replies mean, when to reconnect and what to
  tell the user. Each function states its behaviour in a contract, and the functions named `law_*`
  prove what holds across functions.
- `app/` is the program around it: terminal, threads, subprocesses, files and JSON.
- `tests/` runs the library on concrete values.

The library trusts two functions of the standard library: `String::push` and
`String::from_utf8_lossy`.
