# foxbox_backend

The registry behind a hub of connected devices, written and verified in Verus.

Adapters plug families of devices into the hub. An adapter contributes services, and each service
contributes channels: getters, from which values are read, and setters, to which values are sent.
The registry keeps these four kinds of object together, answers queries made by selectors, routes
reads, writes and watches to the adapters in charge, and remembers the watches that are going on.

- `src/model.rs` says what the registry is, mathematically (`Registry`), and what each request
  makes of it. `src/backend.rs` holds the registry itself, whose contracts speak of that model.
- `src/types.rs`, `src/data.rs` and `src/watch.rs` hold what the registry keeps;
  `src/selection.rs`, `src/routing.rs` and `src/collections.rs` what it is done with.
- `src/adapter.rs` holds the two traits that users of the library implement: `Taxonomy`, for the
  kinds of data that the registry carries, and `Adapter`. Nothing is taken for granted of their
  implementations: the contracts speak of whatever these return.
- `src/op.rs` holds requests and replies as data.
- `src/laws/` states what holds of the registry as a whole.
- `app/` puts the registry on channels: requests arrive with the channel on which to reply.
