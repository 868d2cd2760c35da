//! The body generator and emitter.
//!
//! A clause sequence is lowered to a single nested block: each clause
//! wraps the generation of the clauses that follow it in its control
//! construct — plain statements stay at the same nesting level — and a
//! `for`-in group with several items is first folded into one right-nested
//! tuple pattern over one right-nested zip chain.  The full body is then
//! wrapped in a single-pass `loop { ... break; }`, which runs exactly once
//! and gives every guard a meaningful early-exit target.  An empty clause
//! sequence generates no output at all.

use vstd::prelude::*;

use crate::grammar::{parse_run, ClauseV, ParseOutcome};
use crate::parser::{clauses_view, items_view, ForCh, ForChItem, ForIn, ForInItem, ParseError};
use crate::tokens::{Delim, Sp, Tok, Word};

verus! {

// ---------------------------------------------------------------------------
// The generated stream, as specification functions
// ---------------------------------------------------------------------------

pub open spec fn comma_tok() -> Tok {
    Tok::Punct(',', Sp::Alone)
}

pub open spec fn semi_tok() -> Tok {
    Tok::Punct(';', Sp::Alone)
}

pub open spec fn colon_tok() -> Tok {
    Tok::Punct(':', Sp::Alone)
}

pub open spec fn dot_tok() -> Tok {
    Tok::Punct('.', Sp::Alone)
}

pub open spec fn eq_tok() -> Tok {
    Tok::Punct('=', Sp::Alone)
}

/// The zip-tree pattern of an item list: a single pattern stands alone,
/// several are folded from the right into nested pairs, the first item
/// outermost on the left.
pub open spec fn zip_pat(items: Seq<(Seq<Tok>, Seq<Tok>)>) -> Seq<Tok>
    decreases items.len(),
{
    if items.len() == 0 {
        Seq::empty()
    } else if items.len() == 1 {
        items[0].0
    } else {
        seq![Tok::Open(Delim::Paren)] + items[0].0 + seq![comma_tok()] + zip_pat(
            items.drop_first(),
        ) + seq![Tok::Close(Delim::Paren)]
    }
}

/// The zip-tree iterable of an item list: a single iterable stands alone,
/// several are folded from the right into
/// `(first).into_iter().zip(rest-of-chain)`, mirroring `zip_pat` exactly.
pub open spec fn zip_iter(items: Seq<(Seq<Tok>, Seq<Tok>)>) -> Seq<Tok>
    decreases items.len(),
{
    if items.len() == 0 {
        Seq::empty()
    } else if items.len() == 1 {
        items[0].1
    } else {
        seq![Tok::Open(Delim::Paren)] + items[0].1 + seq![
            Tok::Close(Delim::Paren),
            dot_tok(),
            Tok::Word(Word::IntoIter),
            Tok::Open(Delim::Paren),
            Tok::Close(Delim::Paren),
            dot_tok(),
            Tok::Word(Word::Zip),
            Tok::Open(Delim::Paren),
        ] + zip_iter(items.drop_first()) + seq![Tok::Close(Delim::Paren)]
    }
}

pub open spec fn label_toks(label: Option<Tok>) -> Seq<Tok> {
    match label {
        Some(l) => seq![l, colon_tok()],
        None => Seq::empty(),
    }
}

/// The header of the loop generated for a `for`-in group: label, `for`,
/// zip-tree pattern, `in`, zip-tree iterable.
pub open spec fn for_head(label: Option<Tok>, items: Seq<(Seq<Tok>, Seq<Tok>)>) -> Seq<Tok> {
    label_toks(label) + seq![Tok::Word(Word::For)] + zip_pat(items) + seq![Tok::Word(Word::In)]
        + zip_iter(items)
}

/// What a clause emits before the generation of the clauses that follow
/// it.  For every clause but a plain statement this ends with the opening
/// brace of the block that will contain them.
pub open spec fn clause_head(cl: ClauseV) -> Seq<Tok> {
    match cl {
        ClauseV::Stmt { toks } => toks,
        ClauseV::IfGuard { cond } => seq![Tok::Word(Word::If)] + cond + seq![
            Tok::Open(Delim::Brace),
        ],
        ClauseV::IfLet { pat, rhs } => seq![Tok::Word(Word::If), Tok::Word(Word::Let)] + pat + seq![
            eq_tok(),
        ] + rhs + seq![Tok::Open(Delim::Brace)],
        ClauseV::ForIn { label, items } => for_head(label, items) + seq![Tok::Open(Delim::Brace)],
    }
}

/// What a clause emits after the generation of the clauses that follow it:
/// the closing brace of its block, or nothing for a plain statement.
pub open spec fn clause_tail(cl: ClauseV) -> Seq<Tok> {
    match cl {
        ClauseV::Stmt { .. } => Seq::empty(),
        _ => seq![Tok::Close(Delim::Brace)],
    }
}

/// The generated body of a clause sequence: the head clause's opening
/// tokens, then the generation of the remaining clauses, then the head
/// clause's closing tokens.  Empty input generates nothing.
pub open spec fn body_of(cs: Seq<ClauseV>) -> Seq<Tok>
    decreases cs.len(),
{
    if cs.len() == 0 {
        Seq::empty()
    } else {
        clause_head(cs[0]) + body_of(cs.drop_first()) + clause_tail(cs[0])
    }
}

/// The full expansion: the body wrapped in the single-pass loop
/// `loop { <body> break ; }`, or nothing at all for an empty sequence.
pub open spec fn expansion_of(cs: Seq<ClauseV>) -> Seq<Tok> {
    if cs.len() == 0 {
        Seq::empty()
    } else {
        seq![Tok::Word(Word::Loop), Tok::Open(Delim::Brace)] + body_of(cs) + seq![
            Tok::Word(Word::Break),
            semi_tok(),
            Tok::Close(Delim::Brace),
        ]
    }
}

// ---------------------------------------------------------------------------
// Executable generation
// ---------------------------------------------------------------------------

/// Builds the zip-tree pattern and iterable of an item list by folding
/// from the right; a single item's spans pass through untouched.
pub fn for_in_zippings(items: Vec<ForInItem>) -> (r: (Vec<Tok>, Vec<Tok>))
    ensures
        r.0@ == zip_pat(items_view(items@)),
        r.1@ == zip_iter(items_view(items@)),
    decreases items@.len(),
{
    let mut items = items;
    if items.len() == 0 {
        proof {
            assert(items_view(items@) =~= Seq::<(Seq<Tok>, Seq<Tok>)>::empty());
        }
        return (Vec::new(), Vec::new());
    }
    let ghost iv = items_view(items@);
    let first = items.remove(0);
    proof {
        assert(items_view(items@) =~= iv.drop_first());
        assert(first@ == iv[0]);
    }
    if items.len() == 0 {
        return (first.pat, first.iter);
    }
    let (sp, si) = for_in_zippings(items);
    let ForInItem { pat: mut p1, iter: mut e1 } = first;
    let mut sp = sp;
    let mut si = si;
    let mut rp: Vec<Tok> = Vec::new();
    rp.push(Tok::Open(Delim::Paren));
    rp.append(&mut p1);
    rp.push(Tok::Punct(',', Sp::Alone));
    rp.append(&mut sp);
    rp.push(Tok::Close(Delim::Paren));
    let mut ri: Vec<Tok> = Vec::new();
    ri.push(Tok::Open(Delim::Paren));
    ri.append(&mut e1);
    ri.push(Tok::Close(Delim::Paren));
    ri.push(Tok::Punct('.', Sp::Alone));
    ri.push(Tok::Word(Word::IntoIter));
    ri.push(Tok::Open(Delim::Paren));
    ri.push(Tok::Close(Delim::Paren));
    ri.push(Tok::Punct('.', Sp::Alone));
    ri.push(Tok::Word(Word::Zip));
    ri.push(Tok::Open(Delim::Paren));
    ri.append(&mut si);
    ri.push(Tok::Close(Delim::Paren));
    proof {
        assert(rp@ =~= zip_pat(iv));
        assert(ri@ =~= zip_iter(iv));
    }
    (rp, ri)
}

impl ForIn {
    /// Emits the generated loop's header — label, `for`, zip-tree pattern,
    /// `in`, zip-tree iterable — onto `out`.  Consumes the clause: the
    /// captured spans move into the output.
    pub fn to_tokens(self, out: &mut Vec<Tok>)
        ensures
            final(out)@ == old(out)@ + for_head(self.label, items_view(self.items@)),
    {
        let ghost lbl = self.label;
        let ghost iv = items_view(self.items@);
        let ForIn { label, items } = self;
        match label {
            Some(l) => {
                out.push(l);
                out.push(Tok::Punct(':', Sp::Alone));
            },
            None => {},
        }
        out.push(Tok::Word(Word::For));
        let (mut p, mut i) = for_in_zippings(items);
        out.append(&mut p);
        out.push(Tok::Word(Word::In));
        out.append(&mut i);
        proof {
            assert(out@ =~= old(out)@ + for_head(lbl, iv));
        }
    }
}

/// Generates the nested body of a clause sequence: the head clause wraps
/// the generation of the rest, plain statements staying at the same
/// nesting level.  The recursion strictly decreases the clause count and
/// bottoms out at the empty sequence, which generates nothing.
pub fn for_body(stmts: Vec<ForChItem>) -> (r: Vec<Tok>)
    ensures
        r@ == body_of(clauses_view(stmts@)),
    decreases stmts@.len(),
{
    let mut stmts = stmts;
    if stmts.len() == 0 {
        proof {
            assert(clauses_view(stmts@) =~= Seq::<ClauseV>::empty());
        }
        return Vec::new();
    }
    let ghost all = clauses_view(stmts@);
    let item = stmts.remove(0);
    proof {
        assert(clauses_view(stmts@) =~= all.drop_first());
        assert(item@ == all[0]);
    }
    let mut rest = for_body(stmts);
    match item {
        ForChItem::Stmt(v) => {
            let mut v = v;
            v.append(&mut rest);
            proof {
                assert(v@ =~= body_of(all));
            }
            v
        },
        ForChItem::IfGuard(g) => {
            let mut v: Vec<Tok> = Vec::new();
            v.push(Tok::Word(Word::If));
            let mut cond = g.expr;
            v.append(&mut cond);
            v.push(Tok::Open(Delim::Brace));
            v.append(&mut rest);
            v.push(Tok::Close(Delim::Brace));
            proof {
                assert(v@ =~= body_of(all));
            }
            v
        },
        ForChItem::IfLet(il) => {
            let mut v: Vec<Tok> = Vec::new();
            v.push(Tok::Word(Word::If));
            v.push(Tok::Word(Word::Let));
            let mut pat = il.pat;
            v.append(&mut pat);
            v.push(Tok::Punct('=', Sp::Alone));
            let mut rhs = il.expr;
            v.append(&mut rhs);
            v.push(Tok::Open(Delim::Brace));
            v.append(&mut rest);
            v.push(Tok::Close(Delim::Brace));
            proof {
                assert(v@ =~= body_of(all));
            }
            v
        },
        ForChItem::ForIn(fi) => {
            let mut v: Vec<Tok> = Vec::new();
            fi.to_tokens(&mut v);
            v.push(Tok::Open(Delim::Brace));
            v.append(&mut rest);
            v.push(Tok::Close(Delim::Brace));
            proof {
                assert(v@ =~= body_of(all));
            }
            v
        },
    }
}

/// The whole transformation: classify the input into clauses, then emit
/// the nested body inside the single-pass `loop { ... break; }` wrapper.
/// Zero clauses yield zero output tokens; an input at which no grammar
/// matched yields the error, pointing at the first token of the clause
/// that could not be parsed.
pub fn for_ch(input: Vec<Tok>) -> (r: Result<Vec<Tok>, ParseError>)
    ensures
        match parse_run(input@) {
            ParseOutcome::Parsed { clauses } => r matches Ok(out) && out@ == expansion_of(clauses),
            ParseOutcome::Failed { pos } => r matches Err(e) && e.pos == pos,
        },
{
    let fc = match ForCh::parse(input) {
        Ok(fc) => fc,
        Err(e) => {
            return Err(e);
        },
    };
    let ghost cs = fc@;
    if fc.stmts.len() == 0 {
        proof {
            assert(cs.len() == 0);
        }
        return Ok(Vec::new());
    }
    proof {
        assert(cs.len() > 0);
    }
    let mut body = for_body(fc.stmts);
    let mut out: Vec<Tok> = Vec::new();
    out.push(Tok::Word(Word::Loop));
    out.push(Tok::Open(Delim::Brace));
    out.append(&mut body);
    out.push(Tok::Word(Word::Break));
    out.push(Tok::Punct(';', Sp::Alone));
    out.push(Tok::Close(Delim::Brace));
    proof {
        assert(out@ =~= expansion_of(cs));
    }
    Ok(out)
}

} // verus!
