# eltanin

Local-first authorization for protected compute: observed workload
identity, evidence-backed policy, scoped expiring leases, trusted
sessions, remembered approvals, bounded delegation, risk-based step-up,
and a read-only evidence projection of the native audit log.

The library (`src/`) is written in Verus. Every public function carries a
`requires`/`ensures` contract over a mathematical model of its types, and
the properties that span several calls (a revoked lease never validates
again, a deny rule always wins, an inserted approval is found again, an
observe-mode record never claims a real action, …) are stated and proved
as `law_*` proof functions next to the code they are about.

Layout:

- `src/` — the verified library: `resource`, `identity`, `policy`,
  `lease`, `session`, `approval`, `delegation`, `risk`, `peer`, the `/proc`
  parsing and ancestry walk of the platform collectors (`collector`), and
  the evidence projection (`dogfood`). SHA-256 comes from the `sha2` crate
  through one trusted wrapper (`digest`).
- `tests/` — executable tests of the library.
- `app/` — what touches the operating system: the Linux and macOS
  collectors, which read kernel state and hand it to the library, and the
  JSON forms of the on-disk policy and approval documents.
