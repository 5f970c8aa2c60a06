# portfolio_core

A personal portfolio application with three tools: a scientific calculator
(exact rationals, complex numbers, units, 256-bit approximations), a text
analyzer and a hex/RGB color converter. The library is written in Verus: its
functions carry contracts proved by the verifier, except the small wrappers
around the outside crates (`bignum.rs`, `float.rs`, two string calls), whose
contracts are trusted.

Layout:

- `src/text.rs` — character-level string helpers and their specifications.
- `src/bignum.rs`, `src/float.rs` — exact integers and rationals from
  `num-bigint`/`num-rational`, approximate numbers from `astro-float`, each
  call behind a small trusted wrapper whose contract names what it returns.
- `src/engine/` — the calculator: parsing, values and units, operators and
  functions, unit conversion, display, variables, completion, sessions.
- `src/domain/` — the application state: portfolio content, the calculator
  workspace, the text analyzer, the color converter, persisted sessions and
  the command dispatcher.
- `src/ui.rs` — the navigation model: the domain rail, the command palette
  and its filter, the action hubs, open workspaces and the tile grid.
- `app/` — the eframe/egui program that draws the state and sends commands,
  with the serde form of sessions.
- `tests/` — scenario tests run against the compiled library.
