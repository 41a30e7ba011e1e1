# prismqueer

A typed transformation library whose logic carries Verus contracts and
proofs.

## Layout

- `src/` — the verified library.
  - `optic_kind` — the optic-kind lattice and its composition laws.
  - `bundle` — the principal-bundle tower (`Fiber`, `Connection`, `Gauge`,
    `Transport`, `Closure`), the identity prism, the cyclic group `Z/NZ`,
    and (in `bundle::examples`) the symmetric group `S3` with its
    permutation bundle.
  - `liquid`, `flux` — the spectral commutator of two bundle carriers and
    the verdict pillars over it; `flux::pillar` also holds the
    choice-sequence `Sample` with deterministic replay.
  - `verdict` — the pass / partial / fail verdict the pillars return.
  - `fate` — the model enum, feature dimensions, strategy group, the byte
    weight tables with their serialization, and the runtimes built on a
    verified Brainfuck interpreter.
  - `spectral::kleinos` — shard graphs, their construction, the K_2 to K_3
    composition and its property checks.
  - `trace`, `substrate_ref`, `pq`, `choice`, `hypothesis`, `question`,
    `observer` — the smaller carriers.
- `tests/` — executable tests of the library.
- `app/` — ordinary Rust around the library: floating-point numerics of
  the Fate model (training, quantization, the connection manifold, the
  dark-coupling eigensystem), the floating-point bundle carriers, terni verdict and transparency carriers, the
  clock-seeded property runner, and serde forms of the pq vocabulary.
