# roto

Parts of the Roto scripting language's front end and runtime registry,
written in Verus with their contracts proved.

- `src/syntax`: exact source spans (`meta`), tokens, the lexer (`lexer`,
  with what it reads at each position stated in `scan`), and structured
  parse diagnostics.
- `src/typechecker`: Roto's types, their substitution and instantiation,
  the built-in type definitions and intrinsic methods with their
  documentation, and type errors.
- `src/runtime`: the items a host registers with Roto (types, functions,
  constants, modules), their layouts, name checks, the registry that
  resolves them, and the documentation generated from it.
- `src/file_tree.rs`: the source files of a script and their module names.
- `src/pipeline.rs`: reports of compile errors and how they are labelled
  and rendered.
- `src/tools/print.rs`: terminal syntax highlighting based on the lexer.
- `app/`: printing, file output and terminal rendering of reports.

`tests/` exercises the library from the outside.
