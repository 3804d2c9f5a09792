# crabcraft

A Minecraft client whose rules are verified. The library under `src/` holds what
the client decides and computes: how packets of the eight supported protocols are
read, what they do to the state of a session, how clicks on windows move items,
how resource packs are checked and merged, and what the keys and buttons of the
player lead to. Its functions carry contracts that Verus proves. A few small
wrappers around other crates and the standard library (`external_body` functions
and two `assume_specification` items) are believed instead; the comment above each
one says what is claimed of the function that it calls.

- `src/wire.rs`, `nbt.rs`, `json.rs`, `component.rs`: the forms that data comes in.
- `src/packets.rs`, `play.rs`, `session.rs`: the packets of a session and where
  they go; `entities.rs`, `metadata.rs`, `windows.rs`, `scoreboard.rs` and others
  hold the parts of its state.
- `src/clicks.rs`, `digging.rs`, `motion.rs`, `screens.rs`: what the player does.
- `src/archive.rs`, `packs.rs`, `resource_pack.rs`: resource packs.
- `src/recipes.rs`, `recipe_book.rs`, `slots.rs`: recipes, and stacks that are
  decoded elsewhere and fed to the parser that needs them.

Public proof functions state what holds of several operations together, such as
that clicks keep the number of items.

`app/` is the program around the library: sockets, files, the window, the GPU, and
whatever is floating point. It hands bytes and plain values to the library and
carries out what the library answers.
