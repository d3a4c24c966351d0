# rshell

The core of a terminal manager for SSH and local shells, verified with Verus, and the
GTK application around it.

- `src/` is the library. Every function states what it does in its contract.
  - `config`, `connection`, `draft`: settings, profiles, the store, the editor's draft.
  - `command`, `ssh`: command lines and options that connections are made with.
  - `terminal`: phases of sessions, and how a session answers its stream, its requests
    and its ssh connection.
  - `screen`, `image`, `keys`, `panes`: text and selection, pixels, keys, split layouts.
  - `app`, `window`, `sidebar`: the state of the application, what each message does to
    it, and what the window shows of it.
  - `store_laws`, `app_laws`: what holds of the store and of the application as a whole.
  - `text`, `order`, `seqs`, `ids`: texts, stable sorting, sequences, identifiers.
- `tests/` runs the library on concrete values.
- `app/` holds the window, the files, the sessions and their threads.
