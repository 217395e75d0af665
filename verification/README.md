# GTM Agent

The logic of the GTM Agent desktop application, verified with Verus, and the application around it.

GTM Agent takes the address of a product's website, sets up a folder for it with four marketing
documents, and has the Codex command line program fill them in a first analysis.

- `src/` is the library. It decides; it does not touch files, windows or other programs. What a
  function gives back is stated in its contract, save where the environment alone decides, and
  the properties that span functions are proved as functions whose names begin with `law_`.
  `src/outside.rs` and `src/json.rs` hold the few contracts that are believed without proof, since
  they speak of other crates and of the standard library.
- `tests/` runs the library on concrete values.
- `app/` is the Tauri application. It performs what the library asks for and reports back.

A path carries the style of the system that it is written for, so that the same contracts speak of
Unix and of Windows.
