//! A syntax transformer that flattens loop and guard clauses.
//!
//! The input is a sequence of clauses, each terminated by a semicolon:
//! `for`-in clauses (optionally labelled, optionally zipped over several
//! iterables at once), `if let` bindings, bare `if` guards, and ordinary
//! statements.  The transformer rewrites the flat sequence into the
//! equivalent nested control-flow blocks, innermost clause closest to the
//! final plain statements, and wraps the whole result in a single-pass
//! `loop { ... break; }` so that guard clauses have a meaningful target for
//! early-exit control flow.

pub mod emit;
pub mod grammar;
pub mod laws;
pub mod parser;
pub mod tokens;

pub use emit::{for_body, for_ch, for_in_zippings};
pub use parser::{ForCh, ForChItem, ForIn, ForInItem, IfGuard, IfLet, ParseError};
pub use tokens::{Delim, Sp, Tok, Word};
