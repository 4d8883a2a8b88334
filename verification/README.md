# theist

A library for Creatures agent files (PRAY), with its behaviour proved by Verus, and the
`theist` command built on it.

- `src/format/`: the PRAY format of the editor: blocks (files, agents, eggs, garden box
  items, others), their tags, reading and writing them. `read_back.rs` proves what
  reading a written file gives back.
- `src/pray/`, `src/source/`, `src/agent/`: the command's compiler: Theist source text
  to tags and files, tags and files to a PRAY file, and back.
- `src/editor/`: the editor's state: open file, tags, descriptions, dependencies,
  undo and redo, settings.
- `src/sprite/`: C16, S16 and BLK images decoded to RGBA pixels.
- `src/buffer.rs`, `src/text.rs`, `src/file_helper.rs`, `src/reorder.rs`: byte reading,
  text and path helpers, list reordering.
- `src/compression.rs`, `src/pattern.rs`: the calls into `libflate` and `regex`, each
  with the contract that the rest of the library relies on.
- `app/`: the `theist` command (reading and writing files, arguments).
- `tests/`: tests on concrete values.
