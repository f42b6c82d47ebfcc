# taunter

Watches Team Fortress 2's `console.log` and, when a kill you care about shows
up, reacts through RCON: says a chat line, taunts or spins, sends extra
commands, and keeps Discord rich presence up to date.

## Layout

- `src/` — the library, verified with Verus:
  - `helper.rs`: reading the killer and victim from a console line (through
    the `regex` crate) and deciding whether a kill counts;
  - `pattern.rs`: the trusted interface to the `regex` crate;
  - `log.rs`: where to read the end of the log, splitting it into lines and
    picking the lines not yet handled;
  - `tracker.rs`: the state kept between kills (last kill handled, kill
    count, domination streaks), the reaction to one kill line (`react`)
    and the laws of the state;
  - `response.rs`: the commands sent back after a counted kill;
  - `victims.rs`: per-victim settings; `keyed.rs`: the map they live in.
    The domination streaks and the per-victim entries are kept in
    `StringMap`, a list of distinct keys seen as a `Map`, rather than in a
    `HashMap<String, _>`: vstd's specification of `HashMap` with `String`
    keys does not let lookups be proved, and the order in which a `HashMap`
    is walked depends on a seed chosen per process;
  - `commands.rs`, `text.rs`: command texts, decimal numbers, substitution.
- `app/` — the program: command line and JSON settings, reading the log
  file, the RCON connection, the Lua engine for `custom.lua`, Discord.
- `tests/` — tests of the library.
