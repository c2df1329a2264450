# reminder_commands

The decisions behind a Discord reminder bot's commands, written in Verus and
proved against their contracts.

- `src/` is the verified library. Each command's logic is a function from plain
  values to plain values: reading the arguments of `look`, `remind`,
  `interval`, `natural`, `timer` and `del`, the checks a reminder must pass
  before it is stored, the replies, and the state machine (`flow`) that drives
  setting a reminder step by step.
  The mention grammar (`<#id>`, `<@id>`, `<@!id>`) and the phrase splitting of
  `natural` are functions on characters, with the Unicode White_Space and
  decimal-digit tables as spec data. A localised word that holds
  regular-expression syntax is matched with the regex crate instead.
- Calls into chrono, chrono-tz, num-integer, rand and regex stand behind small trusted
  wrappers whose contracts say what those crates document.
- `app/` holds the I/O: the clock, the environment, the date-parsing helper
  process, and a driver that runs the reminder flow against the bot's services.
- `tests/` runs the library on concrete inputs.
