# fstar_lsp

A language server for F*, written as a verified library (`src/`) and a thin
program around it (`app/`).

- `src/fstar.rs`, `src/fstar/`: the values of the F* interactive protocol,
  position conversions between F* (lines from one) and the editor (lines
  from zero), query numbering and the routing of F*'s replies to the
  queries that asked for them.
- `src/fstar_ide.rs`: the same protocol as a single module, with positions
  that always name their file.
- `src/lsp.rs`, `src/lsp/`: what the server decides for an open document:
  the word under the cursor, the queries sent to the two F* processes of a
  document, diagnostics, verification status, hover and completion answers,
  the search for a project's configuration file.
- `src/text.rs`: decimal rendering, lines, UTF-8 byte offsets.
- `src/paths.rs`: the working directory's path arithmetic and the `file:`
  URLs of definitions in other files.
- `src/logging.rs`: leveled log lines.
- `app/`: the program: the LSP transport, the F* processes and their pipes,
  JSON reading and writing, and the file system.
