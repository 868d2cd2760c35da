//! The token model of the clause grammar.
//!
//! The transformer rewrites a flattened, semicolon-terminated sequence of
//! loop/guard clauses into nested control-flow blocks.  It never interprets
//! the patterns, iterable expressions or plain statements it moves around:
//! those are opaque spans of tokens, captured and re-emitted verbatim.  The
//! token type below therefore exposes as plain values exactly what the
//! grammar reads — a fixed vocabulary of keywords, punctuation characters
//! with their spacing, delimiter tags — and carries everything else
//! (identifiers, literals, bracketed groups) as opaque `proc_macro2` values
//! that pass through untouched.

use vstd::prelude::*;

verus! {

/// The delimiter of a bracketed token group.
#[derive(Clone, Copy, PartialEq, Eq, Structural, Debug)]
pub enum Delim {
    Paren,
    Bracket,
    Brace,
}

/// Spacing of a punctuation character.  `Joint` glues the character to the
/// token that follows, so that multi-character operators such as `..` or
/// `==` keep their meaning when the stream is re-emitted.
#[derive(Clone, Copy, PartialEq, Eq, Structural, Debug)]
pub enum Sp {
    Alone,
    Joint,
}

/// The fixed vocabulary of identifiers the transformer reads or writes.
///
/// A lexer building the input stream must map the identifiers `for`, `in`,
/// `if`, `let` and `else` to the corresponding variant; the remaining
/// variants only ever appear in the transformer's output (the single-pass
/// loop wrapper and the zip chain).
#[derive(Clone, Copy, PartialEq, Eq, Structural, Debug)]
pub enum Word {
    For,
    In,
    If,
    Let,
    Else,
    Loop,
    Break,
    IntoIter,
    Zip,
}

/// Declares `proc_macro2::Ident` as an opaque type: values of it are only
/// ever carried through the transformer, never inspected.
#[verifier::external_type_specification]
#[verifier::external_body]
pub struct ExIdent(proc_macro2::Ident);

/// Declares `proc_macro2::Literal` as an opaque type: values of it are only
/// ever carried through the transformer, never inspected.
#[verifier::external_type_specification]
#[verifier::external_body]
pub struct ExLiteral(proc_macro2::Literal);

/// Declares `proc_macro2::Group` as an opaque type: values of it are only
/// ever carried through the transformer, never inspected.
#[verifier::external_type_specification]
#[verifier::external_body]
pub struct ExGroup(proc_macro2::Group);

/// One token of the transformer's stream.
///
/// Input streams contain only the first six variants; `Open` and `Close`
/// mark the synthesized groups of the output (the braces of the generated
/// blocks and the parentheses of the zip chain), which an emitter folds
/// back into real groups.
#[derive(Debug)]
pub enum Tok {
    /// An identifier of the fixed vocabulary.
    Word(Word),
    /// Any other identifier, carried through untouched.
    Ident(proc_macro2::Ident),
    /// A lifetime: the identifier that follows the `'`.
    Lifetime(proc_macro2::Ident),
    /// A literal, carried through untouched.
    Literal(proc_macro2::Literal),
    /// One punctuation character together with its spacing.
    Punct(char, Sp),
    /// A bracketed group, carried through untouched.  The tag names its
    /// delimiter; the grammar reads only the tag.
    Group(Delim, proc_macro2::Group),
    /// Opening of a synthesized group (output only).
    Open(Delim),
    /// Closing of a synthesized group (output only).
    Close(Delim),
}

} // verus!
