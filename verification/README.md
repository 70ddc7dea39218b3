# rust_network_project

The core of a WebSocket chat server and its terminal client, verified with Verus.

- `src/` is the verified library:
  - `text`: trimming, splitting, prefixes, order and decimal notation over characters;
  - `rooms`: names of public rooms, private conversations (`dm:<a>:<b>`) and group rooms;
  - `message`: the messages exchanged, and how new ones are stamped;
  - `auth`: sessions, permissions, e-mail and phone checks, password hashing (bcrypt);
  - `table`, `names`: keyed lists and name sets the other modules build on;
  - `store`: the in-memory message store (add, look up, take back, change);
  - `records`: database rows as plain values, and the decisions between queries;
  - `server`: request classification, permissions, login gate, room admission, outgoing messages;
  - `registry`: room membership and room history kept by the server;
  - `client`: the terminal client's command interpreter.
- `app/` holds the program around it: the axum WebSocket server, the SQL Server
  queries (tiberius), the terminal I/O and the JSON shapes (serde).
- `tests/` runs the library on concrete values.
