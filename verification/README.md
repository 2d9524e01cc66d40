# minlabel-server

A server on which several people label audio files together. Somebody opens a
room, gets a code of six characters and registers files by name and size. Others
join with the code. The bytes of a file are uploaded by its owner when somebody
asks for them. Everybody in a room sees who labels which file, what has been
labelled, and how far the room is.

## Layout

- `src/` is the library, verified with Verus: the rules of the server.
  - `record`, `columns`, `db`: the rows, and what the records answer and accept
  - `json`, `message`: the messages and how they are read and written
  - `state`: claims, connections, channels, and what is to be sent
  - `http`, `ws`: what a request or a message does
  - `text`, `chance`: trimming, extensions, media types; random codes and names
  - `laws`: what holds of the library as a whole
- `app/` is the program: routes, sockets, SQLite, files, the clock.
- `tests/` runs the library.

## How the two work together

The library holds the records in memory. A function that changes them says which
rows to write. The application writes them to SQLite, in their order, and tells
the library how many were written; only these count. What is to be sent is queued
by the library and sent by the application.

## Running

| Variable | Default | Meaning |
|---|---|---|
| `MINLABEL_ADDR` | `0.0.0.0:8080` | the address to listen on |
| `MINLABEL_DATA_DIR` | `data` | the directory of the database and the audio files |
