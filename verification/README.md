# zellij_palette

A command palette for Zellij whose logic is verified with Verus.

- `src/` is the verified library: fuzzy matching and ranking, the palettes'
  entries, the user's overlays and custom palettes, the pane tree, row
  layout, selection handling, and the state machine that turns keys, clicks
  and host events into new state and requests to the host. Every public
  function carries a contract; the `law_*` proof functions state what holds
  across calls.
- `app/` is the plugin itself: it reads the configuration files, converts
  the host's reports into the library's types, performs the requests the
  state machine returns, and draws the palette.
- `tests/` runs the library on concrete values.

## Why the maps are vectors

The configuration is keyed by titles and palette names, that is by
`String`. vstd gives `std::collections::HashMap` and `HashSet` their
contracts only for key types that obey its hashing model
(`vstd::std_specs::hash::obeys_key_model`), and it establishes that model
only for integers, `bool` and boxes of them. For `String` keys the model
would have to be assumed, so no lookup result could be proved.
`collections::StringMap` and `StringSet` therefore keep their entries in a
`Vec`, with the invariant that no key occurs twice, and are viewed as a
`Map` and a `Set` of character sequences.
