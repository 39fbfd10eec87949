# amrisk

A small compiler from a toy systems language to RISC-V assembly, written in
Verus: every step is stated against a mathematical model and proved.

- `src/parser` — the grammar as spec functions on the characters of the source
  (`grammar.rs`), the tokens, identifiers and numbers it reads (`lexer.rs`), the
  furthest failure a parse that does not succeed reports (`failure.rs`), the
  move of the tree's spans to byte offsets (`bytes.rs`), and the coloured tree
  view of a parsed program (`pretty.rs`).
- `src/nodes` — the syntax tree, its model (`model.rs`), the analysis with
  constant folding and its diagnostics (`analyze.rs`), and the code generator
  for each kind of node.
- `src/analysis.rs` — the summary the analysis fills: diagnostics, each kept
  once in the order reported, and the stores.
- `src/generator` — the instruction buffer, registers, offsets and instructions,
  and the assembly text they are written as.
- `app/` — the command line program: reads a file, prints the tree, reports the
  diagnostics with `miette`, and prints the assembly.

Where a source does not parse, the error points at the furthest position at
which a rule of the grammar failed and lists, sorted and each once, everything
the rules expected there (`f_program` states what each rule records).

The grammar reads the source character by character; `parse` then moves every
span of the tree to byte offsets into the UTF-8 text (`src/parser/bytes.rs`), so
that spans, locations and reports count bytes.

Names are looked up in `NameMap` (`src/shared_store.rs`), a list of entries
searched by comparing names, rather than in `std::collections::HashMap`: vstd
specifies `HashMap` only for keys that obey its key model, and `String` keys do
not, so nothing could be proved of a lookup by name there.
