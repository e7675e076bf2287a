# dyntp

A small dependently typed language with a Lean-like surface: inductive types,
a bidirectional type checker based on normalization by evaluation, a tactic
engine, and an interactive front end.

The library under `src/` is verified with Verus. Each module states what its
functions compute as specification functions over mathematical models of the
data (`STerm`, `SValue`, `SGlobals`, ...), and the executable code is proved
to agree with them.

- `term`: core terms and values, their models, shifting and substitution.
- `env`: the global environment of definitions and inductive types.
- `eval`: evaluation, read-back (quotation), normalization and conversion.
- `typecheck`: type inference and checking of core terms.
- `ast`, `ast_helpers`, `elaborate`: surface syntax and its elaboration.
- `tactics`: proof goals and tactics, with the warnings and traces they give.
- `driver`: processing of top-level commands.
- `repl`: what a line typed in the interactive session asks for.
- `prelude`: the built-in types (`Nat`, `Bool`, `Eq`, `And`, `Or`, `Empty`,
  `Unit`) and basic definitions.
- `show`, `pretty`, `debug`, `listing`, `text`: rendering of terms, values and
  the environment.

`app/` holds the command-line program (REPL and file runner). The concrete
syntax of commands is read by a parser generated from a grammar that is not part
of this tree; without it, `app/` reports every non-empty input as a parse error,
and the library is used through its API (commands are built as `ast` values).
