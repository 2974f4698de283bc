# fipe

A small dynamically typed language: a bytecode compiler and stack machine,
an object model with environments, and two Immix-style allocators, written
in Verus with their behaviour stated in contracts and proved.

Layout of `src/`:

- `ast`, `token` — the syntax tree the compiler reads, with a structural
  equality and its source text (`ast::text`).
- `bytecode_vm` — the instruction set and its byte encoding
  (`bytecode::instruction`, `bytecode::instructions`, `bytecode::opcode`),
  the symbol tables and the compiler (`bytecode::compiler`, whose meaning is
  given in `bytecode::compiler_spec`), the machine (`vm`, whose single
  step is given in `vm_spec`), and the stepping debugger's decisions
  (`repl`).
- `bytecode` — a smaller instruction set with its symbol table.
- `object` — runtime values, their texts, and environments.
- `immix`, `heap` — the upward-bumping block allocator that keeps a value
  for each key, and the heap that binds allocated objects in environments.
- `memory` — a block that bumps downward to the machine word by address,
  the line marks and their hole search, the allocator front end, and
  tagged pointers.
- `allocator` — the interfaces of allocators, headers and type tags, and
  (`allocator::immix::memory`) the downward-bumping block allocator that
  searches the line marks for holes.
- `treewalker::eval::errors` — the evaluator's errors.
- `utils` — decimal and padded text, and the machine word's bytes.

`app/main.rs` is the command line: it runs the Fibonacci benchmark on the
machine, or steps through the program one instruction per line read. `tests/` holds the tests.
