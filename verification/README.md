# Panda-DL

A download manager: a daemon that fetches files over HTTP in several parts, torrents and
videos, and a command line that talks to it over a Unix socket.

- `src/` is the library: what the daemon keeps in its books, what it decides and what it says.
  Verus proves the contracts of its functions.
- `src/outside.rs` holds the calls into other crates. These are not proved: each says what is
  taken to hold of its result, which for the directories of the user is nothing. So it is with `String::push` in `src/text.rs`.
- `src/laws.rs` states what holds over several steps: a pause keeps the progress, a removed
  download stays away, a complete download has all its bytes.
- `app/` is the program around the library: requests, files, processes and sockets.
- `tests/` runs the library.

| Module | What it is about |
| --- | --- |
| `text`, `number`, `paths` | text as characters, numbers as text, paths as text |
| `places` | where the files of the daemon are, as bytes |
| `registry`, `types` | maps by identifier, and what a download is |
| `http`, `probe`, `parts`, `transfer`, `unique_path` | fetching over HTTP |
| `youtube` | what is said to and by the program that fetches videos |
| `engine`, `launch`, `monitor`, `report`, `storage` | the books of the daemon |
| `capture`, `config`, `ipc`, `cli` | the clipboard, the settings, requests, the command line |
