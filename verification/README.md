# erlfuzz

The syntax tree and the type approximations of an Erlang program generator,
verified with Verus.

- `src/ast/`: the nodes of a generated module, held in arenas of a `Module`
  and referring to one another by identifiers; their sizes (`size.rs`), their
  Erlang text (`text_spec.rs` states it, `print.rs` writes it), and the
  rankings that show that following references from a node ends (`wf.rs`
  states them, `check.rs` finds them: whether the whole module is well formed,
  and whether its functions can be printed); `arena_laws.rs` states what
  reading a node gives back after additions and changes.
- `src/types.rs`: approximations of Erlang types, with subtyping, union,
  refinement and the join of function types; `src/type_laws.rs` proves the
  laws they obey.
- `src/bigint.rs`: integer literals of any size, written out by `num-bigint`.
- `src/text.rs`: joining strings and writing numbers.
- `app/`: std's `Display` for the printable values, and the literals made
  from floats and `BigInt`s.
