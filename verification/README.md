# engram

A deterministic reasoning kernel over a knowledge graph of concept, question,
solution and latent nodes. A query is tokenised, seeds activation on the nodes
whose labels, label parts or tags it names, spreads that activation along
weighted edges, and ranks the solution nodes it reaches.

Layout:

- `src/` — the verified library: the graph model (`model`), text primitives
  and splitting (`text`), the tokeniser, seeding, propagation frontier,
  candidate selection and confidence classification (`engine`), ranking and
  its uniqueness (`ranking`), display text (`format`), the sub-command
  listings (`report`), the knowledge base and its empty-document rule
  (`knowledge`), and argument and prompt handling (`cli`).
- `app/` — the `engram` program: argument parsing, reading the JSON knowledge
  files, the single-precision activation arithmetic of a query, the
  interactive prompt and printing.
- `tests/` — tests of the library.
