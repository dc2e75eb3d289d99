# diamond

Diamond is a small, immutable, string and stream oriented language. This crate is its
verified core, written in Verus:

- `parse`: the grammar (`syntax.rs`, as the functions that give a text's syntax tree), the
  parser that follows it (`grammar.rs`, proved to build exactly that tree), and the tree.
- `typing`: the signature walk, the scopes, and the type checker that lowers a program to IR
  (`rules.rs` states the typing rules; `pass_two.rs` is proved against them).
- `interpreter`: the values, the standard library functions, and the engine, proved against a
  definitional interpreter (`engine.rs`). The engine does no I/O: it stops with a request that
  the host answers, and is run again with the answers so far.
- `compile.rs`: text to IR; `bin_header.rs`: framing of precompiled IR.

`app/` is the `di` command: it reads files, encodes IR with bincode, and answers the engine's
requests (files, and writing integers as floats).
