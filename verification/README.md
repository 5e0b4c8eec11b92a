# elm_editor

A small terminal text viewer built in the Elm style, with its logic verified
by Verus.

- `src/elm.rs`: commands (`Cmd`), the interpreter that carries them out
  (`Automat`), and fetched resources (`Resource`).
- `src/text.rs`: byte-level text helpers: line splitting, decimal writing.
- `src/document.rs`: screen size, viewport clipping, the document.
- `src/navigation.rs`: keys, cursor movement, and the laws of the arrow keys.
- `src/editor.rs`: the key history, messages, and the editor's update.
- `app/`: the terminal host (crossterm): the main loop, rendering, events.
- `tests/`: tests of the library on concrete values.
