# thinner-floor

A thin native authoring stage: a versioned JSON document of boxes, planes, spheres and groups, a
mailbox on localhost through which people and assistants change it, a window that draws it, and
an optional Cycles sidecar whose picture covers the scene.

- `src/` is the library, written and proved in Verus: the document and its changes, history,
  queries, cameras and light, glTF out and in, Cycles scenes, the mailbox, the live feed and its
  panel, the command line and the stdio adapter. It does no I/O.
- `tests/` runs the library on concrete values.
- `app/` is the program around it: sockets, files, the graphics card, the sidecar process, and
  the JSON shapes of the library's types.

Numbers of a scene are held as the bits of single-precision values (`numeric::Real`). Comparing
them is decided in the library; what they add up to is asked of a calculator that the caller
hands in (`numeric::Calc`, `numeric::Answer`). Contracts hold for every calculator that answers
the same question in the same way.

What the proofs take on trust is declared where it is used: `text.rs` (strings of std),
`value.rs` (serde_json), and `beauty.rs` (sha2 and png).
