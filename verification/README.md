# nexus

The verified core of the Linexus Nexus service.

`src/` is the library, checked by Verus:

- `demiurge` — minting, decay and fee conversion of the Demiurge unit, with
  the laws that govern them (only contribution mints, every lot decays,
  the weekly expectation splits regular and overtime pay, spans compose).
- `access` — permission patterns (`*` and trailing `*`), effective
  permissions as a sorted set, constant-time token comparison, system-token
  screening and scope checks.
- `funnel` — the tiered permission funnel and destructive-action detection.
- `governance` — council proposals: one vote per voter, yea counting,
  approval.
- `nexus`, `gateway`, `gateway_client`, `housing`, `app` — projections and
  defaults of the service surfaces: capability lists, live lots, agent state,
  log lines, outbound addresses, council contributions, version label.
- `text`, `order` — character-level text operations and code-point order.

`tests/` exercises the library. `app/` holds what stays outside: reading the
environment and request headers, outbound HTTP, serializable copies of the
library's types, JSON shapes, and the floating-point approval ratio.
