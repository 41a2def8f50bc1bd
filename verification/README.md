# rust-tracker-bot

A Discord bot that tracks each player's Risk of Rain 2 eclipse level per
survivor.

- `src/` is the verified library: the survivor roster (`survivor`), decimal
  text and string comparison (`text`), the decisions and replies of the level
  commands (`commands`) and the eclipse class selector report (`selector`).
  Each public function's contract states its result exactly; the proof
  functions named `lemma_*` state the laws that relate them (name and index
  round trips, a set level shows in the listing, levels stay in range, every
  survivor at a level is named in the selector report).
- `app/` is the bot itself: poise slash commands, the Postgres reads and
  writes through sqlx, and the Shuttle entry point. It calls the library for
  every decision and every reply.
- `tests/` runs the library on concrete values.
