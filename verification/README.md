# tamarin_rs

A verified reader for `.spthy` security protocol theories, with the command
line of the prover around it and the report on open proof states. Every
function of the library carries a contract, and Verus proves it.

## The parser

`parser::parse_theory` and its companions read a theory. Each step of the
parser has a model, a spec function on the state `state::PS`, and the contract
of the step says that it does what the model does: what it reads, where it
stops, and which error it gives at which line, column and byte.

- `lexer`, `tokens`, `text`, `comments`: characters and tokens.
- `error`, `debug`: errors and how they are shown.
- `ast`, `model`, `values`: what is read, and its mathematical counterpart.
- `state`, `basics`, `lists`: the state of a parse and the steps it is made of.
- `signature`, `operators`, `order`: function symbols and their order.
- `terms`, `vars`, `facts`, `formulas`, `subst`, `actions`, `attrs`: the parts of items.
- `rules`, `lemmas`, `definitions`, `functions`, `processes`, `tactics`,
  `goals`, `proofs`: the items.
- `items`, `names`, `flags`, `paths`, `theory`, `parser`: whole theories.
- `scopes`, `places`, `laws`: what holds of the language as a whole.

What follows the closing `end` of a theory has no influence: a text is read up
to each word `end` in turn, until what is read is a theory.

The parser opens no files. It is handed those that are at hand, and asks for
the others by their path (`parser::Outcome::NeedsFile`).

## The command line

`command` lists the flags as plain data and hands them to clap. `cli` turns
what clap found into options. What clap does is not proved: the functions in
`command` that call it say what is relied on.

## The report

`proof_diagnostics` counts and shows the open states of proofs, and builds the
report as a document (`json`).

## Outside the library

`app/` reads files, prints and writes JSON. `tests/` runs the library.
