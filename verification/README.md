# a16

Support library for the A16 language, with its behaviour stated in `requires` /
`ensures` contracts and proved by Verus.

- `src/stdlib`: integer maths, string and text helpers, list operations, path
  helpers and the clock.
- `src/typeck`: the type checker: types and their model, unification over
  acyclic substitutions, subtyping and compatibility, operator and
  container-method typing, narrowing, match exhaustiveness, the builtin
  signatures, type annotations, the syntax tree it reads, and the checking of
  expressions, statements, items and whole modules (a first pass registers every
  top-level item, a second checks each). Each checking function's contract is a
  relation between the context before and after it; `typeck::invariants` proves
  what checking keeps: the outer scopes, and the errors already reported.
- `src/vm`: agent bookkeeping (token budgets, the step gate, status texts), tool
  permissions and rate limiting, and the machine's error messages.
- `src/vector`: tokenizing and hashing text for embeddings, and the on-disk
  format of the vector index.
- `src/tensor`: shape arithmetic for tensors: element counts, strides,
  broadcasting and matrix-product dimensions.

`app/` holds what the verifier does not model: floating-point maths, tensors and
neural networks, the vector index and embeddings, JSON, files and the process
environment, the tool registry and the agent loop. It calls the library for the
logic above. `tests/` exercises the library.

The bytecode virtual machine (`VM`), its runtime values (`Value`, `NativeFunc`)
and the native functions it registers (`register_stdlib`) are not here, in the
library or in `app/`: they are built on the bytecode format, the async
executor and channels, and the foreign-function registry of three companion
crates (`a16_codegen`, `a16_runtime`, `a16_ffi`), none of which is available to
build against. The machine's error messages, agent bookkeeping and tool
registry, which do not depend on them, are in `src/vm`.
