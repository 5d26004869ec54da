# remote_uci

Reading and writing lines of the Universal Chess Interface protocol, verified with
Verus.

A line is split into tokens at spaces and tabs. `UciIn::from_line` reads the command
that a graphical interface sends to an engine, `UciOut::from_line` the answer that an
engine sends back; `to_uci_string` writes either into a line. Moves and positions are
read and written by the `shakmaty` crate, line breaks are found with `memchr`.

Layout of `src/`:

- `tokens.rs`: separators, `read` and `read_until`, and their mathematical models.
- `line_break.rs`: finding carriage returns and line feeds in the bytes of a line.
- `numbers.rs`: reading integers as `std` does, and writing decimal numerals.
- `chess.rs`: moves and positions, held as the text in which `shakmaty` writes them.
- `types.rs`: commands, answers, options, scores and errors, with their views.
- `parser.rs`: the reader of tokens and the readers of commands and answers, each with
  a contract over a specification of what it reads.
- `render.rs`: writing commands and answers into lines.
- `text_lemmas.rs`, `readback.rs`: facts about tokens of joined text.
- `laws.rs`, `info_laws.rs`, `option_laws.rs`, `answer_laws.rs`: what holds of the
  library as a whole, such as that written commands and answers read back as
  themselves, that blank lines are no message and that line breaks are refused.

`app/` holds what the verified library cannot carry: an error type with
`std::error::Error`, `Display` for lines, `Hash` for option names and conversions to
the types of `shakmaty` and `std`.
