# Papr

Papr is a terminal application for finding, reading and organising research
papers, and for writing with them. This crate holds its decisions: what a key
does, what an answer from the background changes, which file may be created
where. They are written in Verus, so every function states what it returns or
changes, and the statement is proved.

## Layout

- `src/` is the library. It does no input or output. Where a key asks for work
  outside of the state, the handler returns a `UiAction`; once the work is done,
  another function takes the result and goes on.
  - Texts and keys: `text`, `chars`, `lines`, `text_edit`, `wrap`, `order`,
    `path_parts`, `paths`, `keys`, `select`.
  - The state and its records: `state`, `model`, `actions`.
  - Editors: `vim` and `project_editor` for projects, `config_editor` for the
    configuration, `terminal` for the command palette.
  - Pages and dialogs: `keymap`, `navigation`, `papers`, `projects`, `dialogs`,
    `citations`, `discovery`, `filters`, `viewer`, `arxiv`.
  - What happens besides keys: `background`, `compile`, `workspace`, `entries`,
    `downloads`, `enrichment`, `feed`, `fetch`, `library`, `groups`, `plugins`,
    `config`.
- `tests/` runs the library.
- `app/` is the program around it: the terminal, files, processes, watchers and
  the research core `papr_core`.

## Models

A text is a sequence of characters, and a cursor is a byte offset that lies
between two of them (`text::boundary`). What a handler does to the state is a
relation between the state before and the state after, such as
`keymap::key_step`. `App::wf` says that every cursor is valid; every handler
keeps it. Functions whose names start with `law_` state what holds of the library
as a whole: that redo gives back what undo took away, that a stale answer changes
nothing, that nothing is created or deleted outside of a project.

Of outside code, the proofs take as given only what stands in the doc comments of
a few small functions: character classes and lower case from the standard
library, the image formats of `image`, digests from `sha2`, and dates from
`chrono`.
