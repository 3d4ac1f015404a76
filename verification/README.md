# netplay_server

A relay for emulators that play one game over a network. Clients log in, are put
into the room of their game, and share its controllers; once in a frame the room
merges what they press and sends it to all of them.

- `src/` is the library, verified with Verus: logins (`client`), the two sides of
  a session (`client::reader`, `client::writer`), rooms (`room`), the rounds that
  a room goes through (`room::run_loop`), and which game has a room (`registry`).
  `room::model` says what a room does; the `laws` modules of `client`, `room` and
  `registry` say what follows.
- `app/` is the server around it: sockets, tasks, channels and clocks.
- `tests/` runs the library on concrete values.

What is taken on trust: that `md5::compute` depends on its input alone, and that
an `Arc` made from a vector holds the vector's bytes.
