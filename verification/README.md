# tyl_pubsub_port

A publish/subscribe port with an in-memory adapter, written in Verus.

- `src/` is the verified library: event, dead-letter, retry, event-store,
  subscription and monitoring types; the in-memory storage and adapter;
  contract validation between producers and consumers; and, in `laws.rs`,
  properties that hold across operations (reading back appended events,
  fresh global positions, newest snapshot loaded, dead-lettered events
  retrievable, batch retry as sequential retries, and others).
  `platform.rs` holds the calls into uuid, chrono, fastrand, serde_json and
  jsonschema, with the contracts that the rest relies on.
- `app/` wraps the library in the asynchronous ports (`async_trait`), adds
  serde and JSON Schema support for event types, random failure simulation
  and the floating-point statistics.
- `tests/` exercises the library.
