# whiskey

A verified library for driving a Windows program under Wine from a Python
script: the whiskey commands written in the script, the files that are
spawned for a run, the start script, and the answers of the native process
primitives that read and write the program's memory.

Layout:

- `src/` — the library, verified with Verus.
  - `whiskey_python/` — reading whiskey commands out of a script
    (`whiskey_python_parsing`), looking them up, the paths of the spawned
    files, the Python prelude, and the status codes handed to Python
    (`interpreter`). `parsing_laws` holds what is proved across these
    functions.
  - `whiskey_wine_api/` — the Whiskey Wine directory and its files, the start
    script, file names, the pid in a text, the paths json file (read and
    written with `serde_json`), and the decisions about the launched program
    (`processes`).
  - `whiskey_manipulator/` — what the native attach, detach, read and write
    primitives answer, turned into results.
  - `paths.rs`, `text.rs`, `decimal.rs` — path, character and number helpers.
- `app/` — the I/O around it: the native primitives, the file system, the
  system's process table (`sysinfo`), and the embedded interpreter (`pyo3`).
- `tests/` — tests of the library.
