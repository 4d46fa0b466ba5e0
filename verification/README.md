# centra_nf

A compiler front end for the CENTRA-NF language and the request logic of its
language server, written in Verus. Every function of the library carries a
contract that Verus proves, except four small wrappers that each make one
call into std (`String::push`, `char::is_alphanumeric`, `str::to_lowercase`,
`str::to_uppercase`): their contracts state what std documents of that call
and are trusted, not proved.

## Layout

- `src/lexer.rs` — `tokenize`: source text to tokens, with the exact error
  message (and line and column) for an unterminated string or a character
  that no token can start with. A word is a keyword when its upper-case form,
  as `str::to_uppercase` gives it, spells one.
- `src/parser.rs` — `Parser` and `parse`: the four divisions in the fixed
  order IDENTIFICATION → ENVIRONMENT → DATA → PROCEDURE, specified by a
  grammar of spec functions (`parse_tokens`).
- `src/ast.rs` — the syntax tree and its mathematical view.
- `src/ir.rs` — `compile`: tokenize, parse, check that every variable a
  statement reads is declared, and lower each statement to one instruction;
  `listing` renders the instructions one per line.
- `src/handler.rs` — `MessageHandler`: the open documents (a map from URI to
  text) and the answer to each language-server request (hover, completion,
  definition, references, rename, document and workspace symbols), with the
  diagnostics to publish after a document is opened or changed.
- `src/laws.rs` — properties that hold for every input: tokens end with one
  `Eof`, tokens of joined texts are joined, each division heading occurs once
  and in order, parsing stops at the first `Eof`, data types round-trip
  through their spelling, quoted settings, settings that compare as maps,
  declared variables, compile
  determinism, and what the handler's requests read back of what they stored.
- `src/pairs.rs`, `src/text.rs` — key/value pairs kept in increasing order
  of key, with a map view, and character-sequence helpers.
- `app/` — the command-line program (`compile`, `check`) and the JSON-RPC
  glue of the language server; it reads files and JSON and calls the library.
