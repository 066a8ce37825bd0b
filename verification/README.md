# damasc

A small language of values, patterns and expressions, with a matcher, an
evaluator, assignments evaluated in dependency order, queries over bags of
values, and a REPL — written in Verus, with the behaviour of each part
stated as contracts and proved.

Layout:

- `src/value.rs`, `src/literal.rs`, `src/identifier.rs`, `src/value_type.rs`:
  values and their model; maps from names to values kept sorted by name.
- `src/syntax/`: expressions, patterns, assignments, the names they bind and
  read, and iteration over sub-expressions.
- `src/parser/`: the grammar as spec functions (`grammar.rs`, and the value,
  assignment rules beside their parsers) and the parsers proved against it.
- `src/runtime/`: the semantics of evaluation and matching as spec functions
  (`semantics.rs`) and the evaluator, matcher and assignment evaluation
  proved against them.
- `src/topology.rs`: ordering assignments so that each comes after those
  that bind what it reads.
- `src/query/`: captures, predicates, projections, their iterators and the
  query grammar.
- `src/repl/`: commands, the session state and the command grammar.
- `src/text.rs`: the printed forms.
- `src/laws.rs`: properties that hold for all inputs.
- `app/main.rs`: a terminal front end for the REPL.
