# jia_parse

Parsers for planning and modelling files: PDDL domain and problem files, and
`.jia` / `.jiacp` constraint models. The library is written in Verus, which
verifies every function in `src/`; the parsers, the tokenizers, the sorting and
the symbol-table analysis state what they return in their contracts, and a few
small helpers have none beyond what Verus checks of every function (no
overflow, no out-of-bounds access, termination). Three functions wrap `std`
string functions and are trusted (see `src/text.rs`).

## Layout

- `src/lexer.rs`, `src/parser/`: the PDDL tokenizer and recursive-descent
  parser. Each parse function is specified by a spec function over the token
  sequence (`sp_*`), and the public entry points (`parse_domain_str`,
  `parse_problem_str`) are stated as "tokenize, then parse, then sort".
- `src/normalize.rs`, `src/sorting.rs`: the alphabetical normalisation of a
  parsed domain or problem, a verified stable insertion sort, and the laws
  about it (the result is ordered, sorting twice changes nothing, the stable
  sort is unique).
- `src/jia_lang/`: the `.jia` tokenizer, parser and the symbol-table /
  hover analysis.
- `src/text.rs`: string helpers and the few trusted wrappers around `std`
  string functions.
- `app/`: the command-line program (argument handling, file reading, JSON
  output), which calls the library.

## Use

```rust
let domain = jia_parse::pddl::parse_domain_str(domain_source)?;
let problem = jia_parse::pddl::parse_problem_str(problem_source)?;
let model = jia_parse::jia::parse_model_str(jia_source)?;
```
