# ratty

The logic of a terminal with a scene around it: what agents may ask of the
scene over the wire, who owns what, and what becomes of the bytes of a program.

- `src/` is the library. Every function in it is verified, but for the few that
  wrap an outside crate (see below).
- `tests/` runs it.
- `app/` holds the programs around it: `ratty-ai`, the command line that writes
  the wire sequences; `ratty`, the frame loop; and `ratty-budgets`, which checks
  the embedded files.

## The library

| Modules | What they decide |
| --- | --- |
| `identity`, `capability`, `config` | terminals, their namespaces, and what a terminal may do |
| `osc`, `ai`, `query`, `answers` | the commands, who sent them, and how they are answered |
| `stage`, `objects`, `effects`, `bookmarks`, `macros` | what commands do to the scene |
| `avatar`, `speech`, `overlay` | the mascot, its turns to speak, and its bubble |
| `pty`, `inline`, `screen` | the byte stream, objects among the text, and the screen |
| `keys`, `bindings`, `keyboard`, `mouse`, `focus` | typing, chords, and which terminal they reach |
| `frames` | painted frames on their way to the screen |
| `glb`, `budgets`, `tree` | audits of embedded models, and documents as trees |
| `cli`, `osc_parser`, `requests`, `url` | the command line's sequences and their parser |
| `number`, `text`, `named`, `scene` | numbers by their bits, text, named entries, modes |

Numbers with a fraction are held by their bit patterns: the library compares,
clamps and rounds them, and the programs do the rest of the arithmetic. Times
are whole nanoseconds.

Public proof functions whose names begin with `law_` state what holds of
several functions together.

## What is believed

The outside crates are called through items whose contracts are not proved:
`screen` wraps a `vt100` parser, `frames` empties the scenes of `vello`, `tree`
reads JSON and TOML, `url` escapes, and `text` makes strings of characters and
of bytes. Each such item says what it claims.
