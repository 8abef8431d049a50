# encircled

The verified core of the Encircled desktop companion for Hearts of Iron IV:
it watches the game's save folder, hashes new saves, checks them with the
Encircled server, uploads them, and keeps a local queue of uploads that wait
for the network and a history of upload events.

- `src/` is the library, verified with Verus:
  - `text` — character helpers (Unicode white space, trimming, ASCII case
    folding, building strings, decimal numbers);
  - `models` — the records the app shows;
  - `process` — recognising the game's process and its `-debug` flag, the
    cached status, and the status-reporting rule;
  - `watch` — session id, companion key and folder checks, the server URL,
    reading the server's answers, which files count as saves, which watcher is
    current, the texts the watcher reports;
  - `store` — the offline upload queue and the event history, with their
    rules (duplicates ignored, retry limit, newest first, latest hundred,
    paging);
  - `hash` — SHA-256 of a save (through the `sha2` crate) in hex;
  - `upload` — the size cap, the order of an upload's steps (a step
    function that the app drives), reading the preflight and upload answers,
    the events they produce, and the retry decisions.
- `app/` is the desktop program around it: the window, tray, file watching,
  HTTP requests, the process table, and the SQLite file that keeps a copy of
  the library's tables.
- `tests/` runs the library on concrete values.
