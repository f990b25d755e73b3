# rusty_js_core

The core of a bytecode JavaScript engine, written in Verus: the register
machine's instruction set, the optimisation passes over a function's
bytecode, the scope chain that resolves variables while bytecode is
generated, the bytecode generator for a syntax tree of the library's own
(expressions, blocks, loops, conditionals, `switch`, declarations, calls, nested
functions and arrow functions compiled in builders of their own, classes),
the tables that compiling fills (compiled functions, classes and their
members, property names), and
the builtin values that do not need the runtime (property flags, property
names, regular expressions, strings, templates, symbols, typed arrays,
function instances).

Layout:

- `src/bytecodes.rs`: instructions, the registers each reads and writes.
- `src/optimize.rs`: the passes and the `optimize` pipeline, with their
  structural laws (no self moves, jumps resolved, idempotence).
- `src/inlining.rs`: preparing a callee's code for inlining.
- `src/function_builder_context.rs`: the scope chain (declare, get, set,
  captures).
- `src/ast.rs`: the syntax tree the generator reads.
- `src/code_table.rs`: the compiled functions, classes and property names.
- `src/bytecode_builder.rs`: translation of expressions, statements,
  patterns and function bodies into bytecode, each against a spec function
  of the code it emits; blocks, loops, `break`/`continue`, finishing a
  function.
- `src/bultins/`: the builtin values; `regex` compiles and runs regular
  expressions with the `regress` crate.
- `app/`: the big-integer value, which holds a `num_bigint::BigInt`.
- `tests/`: the tests.
