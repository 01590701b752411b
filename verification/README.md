# TofuBot

A Discord bot: custom commands per guild, ranks earned by chatting, a log
channel for bans, joins, leaves, deleted and edited messages, metrics for
DataDog and a per-guild configuration editable as TOML.

- `src/` is the library, verified with Verus: metric tags and sending
  (`dog`), guild and user documents (`mongo`, `strmap`), custom commands and
  their paged list (`commands`), levels (`ranks`), score awards, admin check
  and command timing (`handler`), log message texts (`logging`), the
  configuration preview (`settings`), Urban Dictionary replies (`urban`),
  durations (`utils`) and decimal rendering (`text`).
- `app/` is the program around it: Discord through serenity, MongoDB, the
  Perspective analysis and Urban Dictionary lookups.
- `tests/` exercises the library.
