# course_chat

A TCP chat that broadcasts text, files and images from one client to the
others, with the small text-processing tools that grew next to it.

- `src/` is the library, verified with Verus: message framing with a
  big-endian length prefix and its byte-by-byte reassembly, the messages and
  how typed lines read as messages, the server's broadcast and removal
  decisions, command-line settings, text transformations, and a CSV table
  renderer. Calls into `image`, `slug`, `chrono` and `anyhow`, and a few std
  functions, stand behind small trusted wrappers. Each wrapper's doc comment
  says what its contract claims of the outside function and what it leaves
  unsaid: a result that is a function of the arguments alone gets a name
  (the PNG an image re-encodes to, a slug, a calendar date), and one that
  depends on the clock gets no claim.
- `app/` is the program around it: sockets, threads, files, standard input
  and output, command-line parsing with `clap`, logging with `tracing`,
  error reporting with `thiserror`, and
  CBOR encoding with `serde`.
- `tests/` runs the library on concrete values.

Run the chat as `--mode server` (the default) or `--mode client`, with
`--host`, `--port` and `--log-level`.
