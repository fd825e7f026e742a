# issue_tracker

`tracker`, a small single-user issue tracker for the terminal, written as a
Verus library with a thin command-line front end.

- `src/` is the library, verified by Verus:
  - `status`, `priority`: the status flow (`open ⇄ in-progress ⇄ done`, any
    status → `closed` → `open`) and the priority ranks and names;
  - `labels`: trimming, lower-casing, rejecting empty labels, removing
    duplicates;
  - `issue`, `store`: issues, the `{ next_id, issues }` store and its
    operations (create, update, close, reopen, describe, delete), each
    specified over a mathematical view of the store;
  - `query`: which issues `list` shows and in what order;
  - `storage`: paths under `.tracker/`, finding the tracker, and reading a
    current or legacy issues file;
  - `render`, `clock`, `width`: the text printed, as styled segments;
  - `prompt`: the delete confirmation and the choice of editor;
  - `laws`: properties that span several operations (ids are never reused,
    labels stay free of duplicates, reading after writing, reopen undoes
    close).
- `app/` is the `tracker` binary: clap, serde_json, the files, the lock, the
  clock, the editor, the terminal and the colours.
- `tests/` runs the library on concrete values, including the command-line
  scenarios.
