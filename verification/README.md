# exopteron

The core of a Minecraft Beta 1.8.1 server, written in Verus: Verus proves
the functions under `src/` against their contracts. The player count, which
other handles change concurrently, states nothing of the count itself.

- `src/protocol`: reading and writing protocol values (big-endian integers,
  UTF-8 and UTF-16 strings, optional values, length-prefixed arrays), the
  packets of the login and play states, the packet codec, and the chunk data
  packet with its nibble packing and zlib compression.
- `src/item`: item and block kinds, item stacks (splitting, merging,
  transferring, damage), inventory windows (clicks, shift-clicks, item
  insertion and mouse drags, each stated exactly by a spec function, with
  laws that nothing is lost, that an inserted item fits when there is room,
  and how a drag shares the cursor's stack; crafting recipes are not part
  of the library), and the flow of water and lava over a world
  of blocks.
- `src/world.rs`, `src/game.rs`: blocks, block positions and the block map;
  `src/world/legacy.rs` the first, flat world store.
- `src/network`: the decisions of a connection's handshake, of chat
  messages, of digging, block placement and sign updates; packets built
  field by field; entity ids, entity metadata and entity actions.
- `src/player_count.rs`, `src/sleep.rs`, `src/status_effects`,
  `src/translation.rs`, `src/plugins.rs`: the smaller pieces of server state;
  the templates are read from and written as JSON in the library, and only
  the file itself is read or written by `app/`.
- `src/formatting.rs`: the `§` codes of chat text and the terminal styles
  that log lines show them with.

`app/` is the program around the library: logging to the terminal and to
files, translation files, and plugin loading from shared libraries.
