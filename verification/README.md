# lox_core

A Lox front end verified with Verus, and the `lox` command line around it.

`src/` is the verified library:

- `tokenize`, `chars`, `token`, `span`, `lexing_laws`: the lexer of the
  command line, specified over characters with byte-offset locations, and its
  laws (items in source order with increasing offsets, one end of file at
  the end, the text of every token is the source at its location, an
  unexpected character stands at its error's location); `tokenize_all`
  states them of the items it returns, and `offsets_fit` lets a caller
  check the byte-length bound the lexer needs.
- `tokenizing`, `source`, `punctuation`: a state-machine lexer over
  characters and read errors with line and column locations, and a lexer of
  punctuation alone.
- `grammar`, `parse`, `expr`, `stmt`, `syntax`: the recursive-descent parser,
  specified by a parser over views, with error recovery at statement
  boundaries; `parse_laws` proves that every operator it builds into an
  expression is one the interpreter knows.
- `resolver`, `program`: static resolution of local variables, with laws on
  scopes and distances, and the pipeline from source code to a program.
- `environment`: a store of environments, with laws on definition, lookup
  and assignment.
- `interpreter`: the decisions of the tree-walk interpreter that do not need
  the value of a number: runtime errors, operators on kinds of values,
  truthiness, short-circuiting, arity, superclasses, string concatenation,
  the environments of a class declaration, and where a variable lives.
- `cli`: the commands, the exit status of a run and the commands of the
  read-eval-print loop, trimmed of Unicode white space.

`app/` is the `lox` program: argument parsing with clap, file reading,
diagnostics with miette, the read-eval-print loop, and the evaluation of
programs, whose numbers are 64-bit floats.

`tests/` runs the library on concrete inputs.
