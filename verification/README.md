# zinder-ingest

Chain ingest for Zinder: blocks of an upstream Zcash node become canonical
rows of a store, historically in bulk and then one by one at the tip. The
library in `src/` holds what ingest decides and computes, with contracts that
Verus proves; `app/` is the service around it.

## Library

- `artifact_builder`, `artifacts`, `zebra`: block-local facts and compact
  blocks of a raw block, and their position in the commitment trees.
- `batch`, `chain_ingest`: what a commit holds, the bounds of a batch, subtree
  roots, transparent spends, and the choice between extending and replacing.
- `bulk_catchup`: source segments and their size, byte watermarks, concurrent
  preparation in height order, previous outputs, commits with at most one in
  flight, and flushing.
- `backfill`, `block_production_time_backfill`, `commitment_root_backfill`:
  one-shot and background backfills.
- `canonical_construction`, `canonical_runtime`, `canonical_follow`,
  `canonical_block_context`: a fresh store, its publication, live appends, and
  the contexts that materialized views read.
- `backup`, `cursor_text`: positions recorded beside a backup and their
  validation.
- `retry`, `source_outage`, `errors`, `text`, `bounds`, `bytes`, `ids`,
  `outpoint_map`, `cli_parse`, `bench_support`: what these share.

Decisions that alternate with asynchronous work are state machines: a driver in
`app/` performs the step that a machine asks for and hands the answer back.

Consensus parsing (`zebra-chain`), hexadecimal text (`hex`) and cursor text
(`base64`) are called through functions whose contracts are believed; each says
so where it stands.

## Service

`app/ports.rs` names what the service needs from nodes, stores and wire codecs.
The other modules drive the library's state machines over those ports.
