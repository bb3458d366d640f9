# twitch-rcon

Sends commands to a game server over RCON when viewers of a Twitch channel redeem channel point
rewards.

The rules of the program are a library whose behaviour is stated in contracts and proved with
Verus. The program around it talks to the outside world.

- `src/` is the library.
  - `config` and `catalog`: the settings, when they are valid, and the redeems in the order in
    which they are looked up.
  - `extra`, `json` and `text`: the command with its extra data behind it.
  - `redeem` and `handling`: which commands a redemption triggers, and how they are sent on.
  - `rcon`, `relay` and `util`: the client of the game server, which sends commands in order, and
    what becomes of them over clients that follow each other. None is lost where commands that
    were not answered are sent again.
  - `pubsub`, `session`, `twitch` and `flow`: the connection to Twitch's PubSub service, and when
    it is made again.
  - `service`, `watch` and `distribute`: when clients are started again, when the settings are read
    again, and how they are handed out.
- `app/` is the program: files, network, timers and logging.
- `tests/` runs the library on examples.

Functions whose bodies call other crates are marked `external_body` (or, for a function of the
standard library, `assume_specification`). Their contracts are not proved; the comment above each
says what it claims.
