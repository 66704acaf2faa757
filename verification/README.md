# econ_bot

The logic of a Discord economy bot, verified with Verus.

- `src/` is the library. `utils` draws plain-text tables and splits
  durations; `text` renders and parses decimal numbers; `structs` holds the
  coin ledger (a balance is the sum of its entries); `database` the records
  of commands run and of items to find; `commands/` the decisions and
  replies of the chat commands: moving coins between wallet and bank, the
  daily reward and its cooldown, exploring, the help card, usage and health
  reports, and the owner's tools.
- `app/` is the bot program: it talks to Discord (poise) and PostgreSQL
  (sqlx), reads the clock and the process's memory, and hands plain values
  to the library.
- `tests/` runs the library on concrete values.
