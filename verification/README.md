# sky_ecs_comparison

The workload definitions and publication bookkeeping of the Compare-ECS
benchmark suite, verified with Verus.

`src/` is the verified library:

- `text` — searching, splitting, parsing and ordering benchmark identifiers,
  each stated over `Seq<char>`.
- `engine` — the compared engines and their identifier suffixes.
- `common` — workload constants and generators:
  - `catalog` — every benchmark family, its class, its work items and the
    engines that run it;
  - `random_fragmentation` — seeded shuffles, entity orders, random
    component masks, query counts and checksums;
  - `gameplay` — the slot layout of the gameplay scenario, the canonical
    256-frame trace, component masks and checksums;
  - `gameplay_state` — the integer state of the gameplay reference model and
    the phases that change it, with the laws that the standard trace keeps;
  - `gameplay_phase`, `components`, `fixtures`.
- `publish` — engine rotations, publication groups and families, work items
  of result rows, the command line and the completeness check of a result
  set.

`tests/` exercises the library on concrete values. `app/` is the
publication program and the float parts of the workloads (matrices, float
components and bundles, the float half of the gameplay oracle, Criterion
timing windows), which Verus does not see.

The per-engine benchmark adapters (Bevy, hecs, FreeCS, Shipyard, Flecs
through its Rust bindings, its C API and its C++ API) and the Criterion
benches that drive them are not part of this crate: they are thin layers over
those engine crates and native libraries. What they share, namely the
catalog, the workloads, the expected counts, digests and checksums they are
validated against, and the publication rules, is what `src/` holds and proves.
