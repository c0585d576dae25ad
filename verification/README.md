# firmum

The front end of the Firmum compiler, verified with Verus. A Firmum source
file holds declarations, each a matched `intent` / `assumption` / `proof`
triple; the compiler parses them, type-checks them, measures how well the
assumptions cover the intent's edge cases, and emits SMT-LIB queries for Z3.

Layout:

- `src/grammar.rs` — the grammar as spec functions over the text; the parser
  (`src/parser.rs`) is proved to compute exactly these functions.
- `src/fir/` — the intermediate representation and its mathematical model.
- `src/typeck/` — the declaration rules, contextual and temporal type checks,
  the decidability classifier and the integer inputs of the coverage score;
  `congruence.rs` proves that the verdicts depend on a program only through
  its model.
- `src/smt/` — the SMT-LIB emitter and the reading of Z3's answer.
- `src/cli/` — what each command computes from the text of its file.
- `app/` — the command-line program: argument handling, file and process I/O,
  the floating-point coverage score and certificates.
- `tests/` — behaviour on concrete inputs.
