# talbot

Interactive Telegram questions for coding agents. A question goes to the user's private chat
with a bot, with one button for each of two to eight choices, and waits up to two hours for a
button or for a message.

- `src/` decides everything about a question and is verified with Verus: what may be asked,
  what the message shows, which calls of the Bot API are made, what Telegram's updates answer,
  who may ask, when a failed call is repeated, and in which order all of this happens.
  `src/session.rs` is the state machine; `src/course.rs` proves what every session keeps to.
- `app/` has the clock, the lock file and the calls, and does what a session asks for.
- `tests/` runs the library.

JSON is read, built and written by `serde_json`. `src/json.rs` holds what is believed of it
without proof; everything else is proved from that.
