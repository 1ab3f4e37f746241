# PromptOps Arena backend

The game server of PromptOps Arena, a turn-based team game in which players
write the prompts that drive their agents.

- `src/` is the verified library, checked by Verus:
  - `domain/`: identifiers, players and display names, rooms with their slots
    and lifecycle, the map format and its parser, agents, matches and events;
  - `persistence/`: the in-memory store and its invariants;
  - `services/room.rs`: the room service, which runs each room operation on the
    store and publishes the live events it causes;
  - `event_bus.rs`: the messages and the per-topic broadcast channels;
  - `format.rs`, `text.rs`, `seqs.rs`, `json.rs`: number rendering, trimming
    and ordering of text, facts about sequences, JSON payloads.
- `app/` is the program around it: configuration, logging, the HTTP listener,
  the clock, the async repository interfaces and the shared service.
- `tests/` exercises the library.

Each operation states its result in its contract; the laws of the library
(for instance that releasing a slot undoes claiming it, or that a saved
snapshot is what reading it gives back) are proof functions named `law_*`.
