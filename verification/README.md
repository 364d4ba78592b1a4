# Road-editing source front end, verified

A library that checks first-party road-editing declarations and verified
road-editing source buffers before they enter compilation: identity tokens
and wire references, checked module headers, compile limits, the semantic
preflight of every declaration table with its accounting, the ownership
closure between tables, the scratch budget of the preflight, and the closed
location vocabulary of road-editing sources.

Every function under `src/` is verified with Verus against its contract,
except one trusted wrapper, `writer::vec_capacity`, which calls
`Vec::capacity`; its contract says only what std documents, that the
capacity is at least the length.

Not here: reading a source out of its FlatBuffers wire tables, writing one,
and freezing the source map. They call the generated wire crate of the
road-editing schema and read the compiler's MIR and LIR units, none of which
is part of this source tree. The library holds what surrounds them: buffer
framing, the checks after the wire verifier, the writer's canonical order,
capacity and sealing, and the source-map sizing.

- `src/` — the library. The preflight reads a source as plain values
  (`*Fields` and `*Links` structs); checks of SI measurements arrive as
  verdicts computed outside it.
- `src/accounting.rs`, `src/stage_records.rs` — the typed-record accounting
  law: a source whose preflight succeeds counts as many typed records as its
  tables say.
- `tests/` — executable tests of the library.
- `app/` — the floating-point measurement checks that produce the verdicts
  the library takes.
- The preflight's closure links are read from its own tables
  (`source_preflight::source_links`), and its peak scratch bytes are exact:
  `source_preflight::source_peak_scratch_bytes`.
