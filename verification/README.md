# event_registry

A registry of ticketed events, verified with Verus.

- `src/types.rs`: the event record and its view.
- `src/table.rs`: records filed by string key, as a map, with the lemmas on
  appending and replacing records and a verified lookup.
- `src/storage.rs`: the contract's ledger state (administrator, platform fee,
  events, organizer lists) and its accessors.
- `src/registry.rs`: the contract's entry points, with the checks on
  initialisation and on the fee.
- `src/laws.rs`: properties that relate several entry points.
- `src/subscription.rs`: the length of a billing month.
- `app/lib.rs`: the Soroban contract around the library: ledger access,
  authorisation and event emission.
