# goose_input

The line-input side of a chat session: from keystrokes and submitted lines to
what they ask for.

- `src/` is the library. Every function states what it does in `requires` and
  `ensures`. Verus proves these from what is stated of four outside functions,
  which is trusted: `shlex::split` (in `commands`), `str::to_lowercase` and
  `String::push` (in `text`), and `char::from_u32` (in `console`).
  - `text`: white space, trimming, prefixes, words, letter case
  - `paste`, `paste_laws`: chips that stand for pasted blocks, and their
    expansion
  - `console`, `capture`, `keys`: how a paste burst is told from typing, and what
    the bound keys do
  - `commands`, `arguments`, `command_laws`: slash commands
  - `help`: the texts shown to the user
  - `session`: getting one input, step by step
- `tests/` runs the library on concrete values.
- `app/` is the prompt itself: rustyline, the Windows console and printing. It
  performs what the library decides and hands back what happened.
