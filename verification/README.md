# b8t_core

The logic of three 8b8t services, verified with Verus: the chat bridge API,
the Tensor stats API and the Discord stats bot.

`src/` is the library, each module with its contracts and laws:

- `text`, `numtext`: character-level text helpers and decimal integers.
- `binary64`: the `f64` quotient of two integers, rounded to nearest-even and
  written with a fixed number of decimals, computed exactly with integers.
- `display`: the bot's number, time, distance and date formats.
- `identity`: usernames, UUIDs and chat message cleaning.
- `hashing`: BLAKE3 digests of secrets, files and blocks of files.
- `api`: the `{ success, data, error }` answer envelope.
- `chat`: authentication, setup links, passwords, sessions, history and the
  socket relay of the chat bridge.
- `guard`: hCaptcha gating, per-player rate limits and link blocking.
- `tensor`: player files, statistics, change detection and the answers of the
  stats API.
- `bot`: configuration, slash commands and replies of the Discord bot.

`app/` holds the programs around the library (HTTP servers, database, file
system, Discord gateway); run it with `chat-api`, `tensor-api` or
`discord-stats-bot` as its first argument.
