# zjstatus_hints

Key-binding hints for the zjstatus status bar of the Zellij terminal
multiplexer, as a verified library and a thin plugin around it.

- `src/` — the library, with its contracts and proofs:
  - `text.rs`: character-sequence operations (search, split, join, replace,
    trim, number parsing) with their specifications;
  - `ansi.rs`: visible length of text holding ANSI escape sequences, and cutting
    it to a number of visible characters;
  - `style.rs`: styles, colour tokens, the `#[fg=..,bold]` template syntax, and
    the ANSI rendering of styled runs (through `ansi_term`);
  - `keys.rs`: keys, modifiers, aliases and how a group of keys is written;
  - `actions.rs`: actions and finding the keys bound to them;
  - `hints.rs`: the hints shown in each mode and how each is painted;
  - `plugin.rs`: configuration, update decisions and the status text.
- `app/main.rs` — the Zellij plugin: it reads the host's configuration, events
  and key bindings, converts them to the library's types, and sends the status
  text through a pipe.
- `tests/` — tests of the library on concrete values.
