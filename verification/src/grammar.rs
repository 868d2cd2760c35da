//! The clause grammar, as specification functions over token sequences.
//!
//! Each clause parser is a total spec function from the remaining input (a
//! clause always begins at index 0 of the sequence it is given) to either
//! `None` — the grammar does not match here — or the captured spans
//! together with the remaining input after the clause.  The classifier
//! tries the grammars in a fixed priority order: bare `if` guard, `if let`
//! binding, `for`-in group, and finally one ordinary statement.  Spans are
//! captured, never interpreted: an expression is the maximal run of tokens
//! up to the first `;`, `,` or brace group, and a pattern the run up to its
//! terminating keyword or `=`.

use vstd::prelude::*;

use crate::tokens::{Delim, Sp, Tok, Word};

verus! {

// ---------------------------------------------------------------------------
// Token classifiers
// ---------------------------------------------------------------------------

pub open spec fn is_punct_ch(t: Tok, c: char) -> bool {
    match t {
        Tok::Punct(c2, _) => c2 == c,
        _ => false,
    }
}

pub open spec fn is_semi(t: Tok) -> bool {
    is_punct_ch(t, ';')
}

pub open spec fn is_comma(t: Tok) -> bool {
    is_punct_ch(t, ',')
}

pub open spec fn is_colon(t: Tok) -> bool {
    is_punct_ch(t, ':')
}

/// A lone `=`: the character `=` spaced `Alone`, so that the first half of
/// `==` or the tail of `..=` is never taken for an assignment-style `=`.
pub open spec fn is_eq_alone(t: Tok) -> bool {
    match t {
        Tok::Punct(c, sp) => c == '=' && sp == Sp::Alone,
        _ => false,
    }
}

pub open spec fn is_joint_punct(t: Tok) -> bool {
    match t {
        Tok::Punct(_, sp) => sp == Sp::Joint,
        _ => false,
    }
}

pub open spec fn is_word(t: Tok, w: Word) -> bool {
    match t {
        Tok::Word(w2) => w2 == w,
        _ => false,
    }
}

pub open spec fn is_brace_group(t: Tok) -> bool {
    match t {
        Tok::Group(d, _) => d == Delim::Brace,
        _ => false,
    }
}

pub open spec fn is_lifetime(t: Tok) -> bool {
    match t {
        Tok::Lifetime(_) => true,
        _ => false,
    }
}

// ---------------------------------------------------------------------------
// Capture scans
// ---------------------------------------------------------------------------

/// End of an expression capture that starts at `p`: the index of the first
/// token at or after `p` that is a `;`, a `,`, or a brace group (brace
/// groups end an expression because the emitted `for`/`if` headers are
/// no-struct-literal contexts), or `t.len()` if there is none.
pub open spec fn scan_expr(t: Seq<Tok>, p: int) -> int
    decreases t.len() - p,
{
    if p < 0 || p >= t.len() {
        t.len() as int
    } else if is_semi(t[p]) || is_comma(t[p]) || is_brace_group(t[p]) {
        p
    } else {
        scan_expr(t, p + 1)
    }
}

/// End of a `for`-clause pattern capture that starts at `p`: the index of
/// the first `in` keyword, `;` or `,` at or after `p`.
pub open spec fn scan_pat_in(t: Seq<Tok>, p: int) -> int
    decreases t.len() - p,
{
    if p < 0 || p >= t.len() {
        t.len() as int
    } else if is_word(t[p], Word::In) || is_semi(t[p]) || is_comma(t[p]) {
        p
    } else {
        scan_pat_in(t, p + 1)
    }
}

/// End of an `if let` pattern capture that starts at `p`: the index of the
/// first lone `=` not glued to a preceding joint punctuation character (so
/// the `=` inside a `..=` range pattern does not end the capture), or of a
/// stray `;` or `,`.
pub open spec fn scan_pat_eq(t: Seq<Tok>, p: int) -> int
    decreases t.len() - p,
{
    if p < 0 || p >= t.len() {
        t.len() as int
    } else if is_semi(t[p]) || is_comma(t[p]) {
        p
    } else if is_eq_alone(t[p]) && (p == 0 || !is_joint_punct(t[p - 1])) {
        p
    } else {
        scan_pat_eq(t, p + 1)
    }
}

/// The index of the first `;` at or after `p`, or `t.len()`.
pub open spec fn scan_semi(t: Seq<Tok>, p: int) -> int
    decreases t.len() - p,
{
    if p < 0 || p >= t.len() {
        t.len() as int
    } else if is_semi(t[p]) {
        p
    } else {
        scan_semi(t, p + 1)
    }
}

// ---------------------------------------------------------------------------
// Clause model
// ---------------------------------------------------------------------------

/// The mathematical model of one classified clause.
pub enum ClauseV {
    /// An ordinary statement, re-emitted verbatim.
    Stmt { toks: Seq<Tok> },
    /// A bare guard `if <cond>;`.
    IfGuard { cond: Seq<Tok> },
    /// A binding `if let <pat> = <rhs>;`.
    IfLet { pat: Seq<Tok>, rhs: Seq<Tok> },
    /// A group `[label:] for <pat> in <iter> (, for <pat> in <iter>)* ;`.
    ForIn { label: Option<Tok>, items: Seq<(Seq<Tok>, Seq<Tok>)> },
}

/// The outcome of classifying a whole input: either the ordered clause
/// sequence, or the index of the first token of the clause that matched no
/// grammar.
pub enum ParseOutcome {
    Parsed { clauses: Seq<ClauseV> },
    Failed { pos: int },
}

// ---------------------------------------------------------------------------
// Clause grammars
// ---------------------------------------------------------------------------

/// `if <cond>;` where the token after `if` is not `let`.  Yields the
/// condition span and the remaining input after the `;`.
pub open spec fn parse_guard(t: Seq<Tok>) -> Option<(Seq<Tok>, Seq<Tok>)> {
    if t.len() >= 1 && is_word(t[0], Word::If) && !(t.len() >= 2 && is_word(t[1], Word::Let)) {
        let e = scan_expr(t, 1);
        if 1 < e && e < t.len() && is_semi(t[e]) {
            Some((t.subrange(1, e), t.subrange(e + 1, t.len() as int)))
        } else {
            None
        }
    } else {
        None
    }
}

/// `if let <pat> = <rhs>;`.  Yields the two spans and the remaining input.
pub open spec fn parse_if_let(t: Seq<Tok>) -> Option<((Seq<Tok>, Seq<Tok>), Seq<Tok>)> {
    if t.len() >= 2 && is_word(t[0], Word::If) && is_word(t[1], Word::Let) {
        let q = scan_pat_eq(t, 2);
        if 2 < q && q < t.len() && is_eq_alone(t[q]) {
            let e = scan_expr(t, q + 1);
            if q + 1 < e && e < t.len() && is_semi(t[e]) {
                Some(((t.subrange(2, q), t.subrange(q + 1, e)), t.subrange(e + 1, t.len() as int)))
            } else {
                None
            }
        } else {
            None
        }
    } else {
        None
    }
}

/// One `for <pat> in <iter>` item starting at `p`.  Yields the two spans
/// and the index just past the iterable (the position of the `,` or `;`
/// that follows the item, if the group is well formed).
pub open spec fn parse_for_item(t: Seq<Tok>, p: int) -> Option<(Seq<Tok>, Seq<Tok>, int)> {
    if 0 <= p && p < t.len() && is_word(t[p], Word::For) {
        let q = scan_pat_in(t, p + 1);
        if p + 1 < q && q < t.len() && is_word(t[q], Word::In) {
            let e = scan_expr(t, q + 1);
            if q + 1 < e && e <= t.len() {
                Some((t.subrange(p + 1, q), t.subrange(q + 1, e), e))
            } else {
                None
            }
        } else {
            None
        }
    } else {
        None
    }
}

/// The item list of a `for`-in group starting at `p`: one item, then
/// further items while a `,` directly followed by `for` continues the
/// group.  Yields the ordered `(pattern, iterable)` spans and the index
/// just past the last iterable.
pub open spec fn parse_for_items(t: Seq<Tok>, p: int) -> Option<(Seq<(Seq<Tok>, Seq<Tok>)>, int)>
    decreases t.len() - p,
{
    match parse_for_item(t, p) {
        None => None,
        Some((pat, iter, e)) => {
            if p < e && e + 1 < t.len() && is_comma(t[e]) && is_word(t[e + 1], Word::For) {
                match parse_for_items(t, e + 1) {
                    None => None,
                    Some((rest, end)) => Some((seq![(pat, iter)] + rest, end)),
                }
            } else {
                Some((seq![(pat, iter)], e))
            }
        }
    }
}

/// `['label:] for <pat> in <iter> (, for <pat> in <iter>)* ;`.  Yields the
/// optional label token, the item spans, and the remaining input after the
/// terminating `;`.
pub open spec fn parse_for_in(t: Seq<Tok>) -> Option<
    ((Option<Tok>, Seq<(Seq<Tok>, Seq<Tok>)>), Seq<Tok>),
> {
    let labeled = t.len() >= 2 && is_lifetime(t[0]) && is_colon(t[1]);
    let start: int = if labeled {
        2
    } else {
        0
    };
    let label = if labeled {
        Some(t[0])
    } else {
        None
    };
    match parse_for_items(t, start) {
        None => None,
        Some((items, e)) => {
            if e < t.len() && is_semi(t[e]) {
                Some(((label, items), t.subrange(e + 1, t.len() as int)))
            } else {
                None
            }
        },
    }
}

/// Whether the nonempty token run `t[0 .. s]` (where `s` is the index of
/// the first `;`, or `t.len()`) is accepted as one host statement.  The
/// transformer only needs a statement's extent, not its meaning, so the
/// check is a small shape test on the leading token: stray separators and
/// orphaned keywords are rejected — in particular a `for` run must still
/// contain a nonempty pattern and a nonempty iterable — and anything else
/// passes through verbatim for the host compiler to validate.
pub open spec fn stmt_run_ok(t: Seq<Tok>, s: int) -> bool
    recommends
        1 <= s <= t.len(),
{
    &&& !is_word(t[0], Word::In)
    &&& !is_word(t[0], Word::Else)
    &&& !is_comma(t[0])
    &&& !is_colon(t[0])
    &&& !is_punct_ch(t[0], '=')
    &&& (is_word(t[0], Word::Let) ==> s >= 2 && !is_eq_alone(t[1]) && s < t.len())
    &&& (is_word(t[0], Word::If) ==> s >= 2)
    &&& (is_word(t[0], Word::For) ==> exists|q: int|
        1 < q && q + 1 < s && #[trigger] is_word(t[q], Word::In))
}

/// The fallback: one ordinary statement.  A lone `;` is an empty statement;
/// otherwise the run up to and including the next `;` (or up to the end of
/// the input) is captured verbatim, provided its shape passes
/// `stmt_run_ok`.  Yields the statement's tokens and the remaining input.
pub open spec fn parse_stmt(t: Seq<Tok>) -> Option<(Seq<Tok>, Seq<Tok>)> {
    if t.len() == 0 {
        None
    } else {
        let s = scan_semi(t, 0);
        if s == 0 {
            Some((t.subrange(0, 1), t.subrange(1, t.len() as int)))
        } else if 0 < s <= t.len() && stmt_run_ok(t, s) {
            let c: int = if s < t.len() {
                s + 1
            } else {
                t.len() as int
            };
            Some((t.subrange(0, c), t.subrange(c, t.len() as int)))
        } else {
            None
        }
    }
}

/// One clause at the head of `t`, classified by trying the grammars in
/// priority order: guard, `if let`, `for`-in, then the statement fallback.
/// Each candidate is a pure function of the input, so a failed candidate
/// has no effect — the speculative-parse-then-commit discipline.
pub open spec fn parse_clause(t: Seq<Tok>) -> Option<(ClauseV, Seq<Tok>)> {
    match parse_guard(t) {
        Some((cond, rest)) => Some((ClauseV::IfGuard { cond }, rest)),
        None => match parse_if_let(t) {
            Some(((pat, rhs), rest)) => Some((ClauseV::IfLet { pat, rhs }, rest)),
            None => match parse_for_in(t) {
                Some(((label, items), rest)) => Some((ClauseV::ForIn { label, items }, rest)),
                None => match parse_stmt(t) {
                    Some((toks, rest)) => Some((ClauseV::Stmt { toks }, rest)),
                    None => None,
                },
            },
        },
    }
}

/// The whole classification: clauses until the input is exhausted, or the
/// index of the first token of the clause at which every grammar failed.
pub open spec fn parse_run(t: Seq<Tok>) -> ParseOutcome
    decreases t.len(),
{
    if t.len() == 0 {
        ParseOutcome::Parsed { clauses: Seq::empty() }
    } else {
        match parse_clause(t) {
            None => ParseOutcome::Failed { pos: 0 },
            Some((cl, rest)) => {
                if rest.len() < t.len() {
                    match parse_run(rest) {
                        ParseOutcome::Parsed { clauses } => ParseOutcome::Parsed {
                            clauses: seq![cl] + clauses,
                        },
                        ParseOutcome::Failed { pos } => ParseOutcome::Failed {
                            pos: t.len() - rest.len() + pos,
                        },
                    }
                } else {
                    ParseOutcome::Failed { pos: 0 }
                }
            },
        }
    }
}

} // verus!
