# sintet

The rules of a small top-down survival game, written in Verus and proved
against their contracts: inventories and stacking, experience and levels,
console commands, the content registry, sprite atlases and their indices,
and the matching of requested textures with the picture files found on disk.

Layout:

- `src/` — the verified library, one module per part of the game:
  `inventory`, `item`, `stats`, `console`, `text`, `registry`, `assets`,
  `atlas`, `control`, `entity`.
- `tests/` — tests that run the library on concrete values.
- `app/` — a small program around the library: it reads the content folder
  (JSON files), keeps the records that carry floating-point values, and runs
  console commands against one body.
