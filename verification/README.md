# cim_keys

The verified core of a key-management GUI for an organization: the
organization graph and its editing state with undo and redo, the graph-first
planning of a PKI, a NATS hierarchy and YubiKey provisioning, the read model
of graph domain events, routing of application messages, graph filters, the
entity-centric views of the graph (what the edges say of a selected
certificate, key, person, location, organization, unit or export manifest),
the property card, and the form states of the management panels. Everything under `src/` is checked
by Verus against its `requires`/`ensures` contracts; the laws of the library
are public proof functions next to the code they speak of.

- `src/` — the library. Node identifiers are the 128-bit values of UUIDs;
  canvas coordinates and colours are held as the bit patterns of `f32`
  values.
- `tests/` — tests run against the compiled library.
- `app/` — what stays outside verification: floating-point geometry
  (layouts, zoom and pan, hit testing, edge crossings, colours), the
  passphrase strength ratio, and conversions to and from `uuid::Uuid`.
