# brouas

A paged storage engine, verified with Verus.

- `src/pager`: pages of a fixed size held by a pager (`traits::Pager`, with the
  in-memory `memory::MemoryPager`), their headers in several layouts, two
  allocators of freed pages, overflow chains for long values, variables that
  spill into them (`types::var`), node and cell geometry for B+ trees, and a
  buffer of in-memory pages.
- `src/paging`: pages held in a bounded pool (`pager::Pager`), B+ tree nodes and
  leaves whose cells live in pages, and a stream that writes a variable through
  its source section and overflow pages (`overflow::VarStream`).
- `src/storage`: keyed storage and file names of stored blocks.
- `app/`: what touches the outside world: a sled-backed store, blocks as files,
  and a pager stream over any seekable stream.

Every function of `src/` states its behaviour in its contract; the proof
functions named `lemma_*` state the laws that tie functions together.
