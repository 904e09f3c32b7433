# ffoie_chat

Chat for the FFOIE game: the messages between client and server, the rules of the chat server, and
the chat logic of the game client, as a library verified with Verus.

- `src/protocol.rs` — the messages.
- `src/ws.rs`, `src/state.rs`, `src/nickname.rs`, `src/rate_limit.rs`, `src/config.rs`,
  `src/health.rs` — the server: one connection as a state machine, the registry and the scrollback,
  nicknames and teams, the rate limiter, configuration, the health report.
- `src/network/`, `src/chat.rs`, `src/colors.rs`, `src/panel.rs` — the client: the connection loop
  with its back-off, the HUD's state, color codes, and what the panel shows.
- `src/text.rs`, `src/ring.rs`, `src/random.rs`, `src/clock.rs` — what the others are built on.

The contracts speak of views: text is a sequence of characters, the registry a map, a history a
sequence. Where chance, a clock or the walk of a hash map has a say, an exact function takes its
value as an argument, and the function that draws it states what holds of every value. What the
library promises as a whole stands at the end of each module, as public proof functions.

`app/` is the server program, and the game's side of the network and of the user interface. It
waits, reads, sends and draws; what to do is decided in the library. JSON is read and written there,
on copies of the messages.
