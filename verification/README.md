# resir

A compiler for ResIR, a small intermediate representation, into C, written
in Verus: the library in `src/` is verified, and `app/` is the command-line
program around it.

```sh
resir <input.resir> <output.c> [header.h]
```

Layout of `src/`:

- `lexer/` — the token kinds, the automaton's transition table, and the
  longest-match lexer with its error report.
- `parser/` — the IR, the grammar as spec functions, the recursive-descent
  parser proved to follow it, literal reading, and the control-flow graph.
- `semantic/` — the symbol table, the checks the analyser makes (as spec
  functions), and the analyser proved to report the first failing check.
- `datalog/` — reachability from the entry block and the unreachable blocks.
- `codegen/` — the C generator, whose output is stated exactly.
- `text.rs` — decimal notation and string helpers.
