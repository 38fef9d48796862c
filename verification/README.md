# pumpkin_advancement

The advancement system of a Minecraft server, written in Verus: the data structures, parsers,
packet codecs, text translation, permission tables and decision logic (including what an event
grants) are verified against their contracts; what reads files, uses floating point (the
distance check and the completion percentage), runs the async loops or needs serde stands in
`app/`.

Layout of `src/`:

- `world/` — advancement definitions: requirements (AND of ORs), per-player progress, frames,
  rewards, displays, criteria and their conditions, the vanilla trigger names, the builder, and
  the loader that turns a parsed data file into an advancement.
- `protocol/` — the variable-length number codec, the byte readers and writers, and the
  advancement and recipe-book packets in both directions.
- `server/` — the player's advancement tracker, the advancement registry, the trigger checks
  that decide which criteria an event meets, what an event grants (`events`), the advancement
  command's logic, and the built-in permission tables with their registry.
- `util/` — namespaced identifiers, JSON values, text components and their translation.
- `keyed.rs`, `names.rs` — maps kept as lists of pairs with unique keys, and string lists.

The laws of the library are public proof functions (named `lemma_*`) beside the functions they
speak of; the other properties stand in the functions' `ensures`.
