# xlang

A compiler front end and C back end for xlang, a small TypeScript-like
systems language, written in Verus: every function of the library carries a
contract, and Verus proves that the code meets it, except for the few calls
into std and serde_json listed below, whose contracts are trusted.

## Trusted

- `text::debug_str`, `text::debug_char` — `format!("{:?}")` on a string or a
  character; the result is only named (`debug_str_text`, `debug_char_text`).
- `String::push` — an `assume_specification`: the character is appended.
- `driver::utf8_lossy` — `String::from_utf8_lossy`; named `lossy_text`, and
  valid UTF-8 decodes unchanged.
- `driver::io_error_text`, `driver::json_error_text` — the `Display` text of
  an I/O or JSON error; nothing is claimed of it.
- `codegen::c::json_string_literal` — `serde_json::to_string` of a string: a
  quoted, JSON-escaped literal.
- The outside types `std::io::Error` and `serde_json::Error` are declared to
  Verus and carried through unopened.

## Layout

- `src/` — the verified library.
  - `text`, `source` — UTF-8 byte offsets, spans, line/column tables.
  - `lexer` — tokens and lexical errors, specified by `lex`.
  - `ast` — the syntax tree and its plain-value form.
  - `grammar`, `parser` — the grammar as functions from a token position to
    what is parsed there (or the syntax error found); the recursive-descent
    parser is proved to compute exactly these, with and without error
    recovery.
  - `checked_type`, `type_rules`, `typecheck` — the typing rules as functions
    from a checking state to the next; the checker is proved to compute them.
  - `error` — diagnostics, stable error codes, de-duplication.
  - `symbols`, `lsp` — symbol index, hover, go-to-definition, completion.
  - `codegen` — C generation, including the runtime preambles.
  - `driver`, `cli` — running the front end, rendering diagnostics, applying
    fixes, bounded output capture for runs, command-line parsing.
- `app/` — the `xlangc` executable: file and process I/O, JSON output.
- `tests/` — behavioural tests of the library.
