//! A language-server front end for the F* interactive mode: the protocol
//! values exchanged with `fstar.exe --ide`, the routing of its replies to the
//! queries that asked for them, and the per-document decisions of the server
//! (symbol lookup, diagnostics, verification status).

pub mod text;
pub mod paths;
pub mod logging;
pub mod lsp;
pub mod fstar;
pub mod fstar_ide;
