# lordbornebot

A Twitch chat bot. The library (`src/`, verified with Verus) holds the bot's
logic; the program (`app/`) connects to Twitch's IRC server, talks to the SQLite
database and loads the modules.

Library modules:

- `text` — strings as character sequences: decimal numbers, `i32` parsing,
  substring search, splitting, trimming.
- `message` — decoded messages (`Message`, `PrivateMessage`, `CommandData`), the
  tag map, outgoing messages and whispers, the `Module` trait.
- `parser` — the grammar of tagged IRC lines, decoding into messages and
  encoding outgoing ones.
- `middleware` — the `Middleware` trait, the chain that runs them, and the
  banned-phrase `Filter`.
- `rpg`, `world` — the RPG character models.
- `modules` — what each chat module decides and answers: ping, points, gamble,
  shapes (the "E shape" game), AFK and RPG.

Every module of the program performs the database reads and writes the library's
decisions call for; `app/db.rs` holds them.
