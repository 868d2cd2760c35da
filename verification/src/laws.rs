//! The library's general laws, stated and proved over the grammar and the
//! generated stream.

use vstd::prelude::*;

use crate::emit::{
    body_of, clause_head, clause_tail, colon_tok, comma_tok, dot_tok, eq_tok, expansion_of,
    for_head, label_toks, semi_tok, zip_iter, zip_pat,
};
use crate::grammar::{
    is_colon, is_lifetime, is_word, parse_clause, parse_for_in, parse_guard, parse_if_let,
    parse_run, ClauseV, ParseOutcome,
};
use crate::tokens::{Delim, Tok, Word};

verus! {

/// Empty input yields empty output: zero clauses classify successfully,
/// and their expansion holds no tokens at all — no wrapper, no braces.
pub proof fn lemma_empty_input()
    ensures
        parse_run(Seq::<Tok>::empty()) == (ParseOutcome::Parsed {
            clauses: Seq::<ClauseV>::empty(),
        }),
        expansion_of(Seq::<ClauseV>::empty()) == Seq::<Tok>::empty(),
{
}

/// A single plain-statement clause round-trips: the expansion is exactly
/// the statement's tokens, unwrapped except for the fixed single-pass
/// `loop { ... break; }` wrapper.
pub proof fn lemma_single_statement_round_trip(ts: Seq<Tok>)
    ensures
        expansion_of(seq![ClauseV::Stmt { toks: ts }]) == seq![
            Tok::Word(Word::Loop),
            Tok::Open(Delim::Brace),
        ] + ts + seq![Tok::Word(Word::Break), semi_tok(), Tok::Close(Delim::Brace)],
{
    let cs = seq![ClauseV::Stmt { toks: ts }];
    assert(cs.drop_first().len() == 0);
    assert(body_of(cs.drop_first()) == Seq::<Tok>::empty());
    assert(body_of(cs) =~= ts);
}

/// A single `for` clause with one item wraps the statements that follow it
/// in `for <pat> in <iter> { ... }`, pattern and iterable preserved
/// verbatim, inside the fixed wrapper.
pub proof fn lemma_single_for(pat: Seq<Tok>, iter: Seq<Tok>, body: Seq<Tok>)
    ensures
        expansion_of(
            seq![
                ClauseV::ForIn { label: None, items: seq![(pat, iter)] },
                ClauseV::Stmt { toks: body },
            ],
        ) == seq![Tok::Word(Word::Loop), Tok::Open(Delim::Brace), Tok::Word(Word::For)] + pat
            + seq![Tok::Word(Word::In)] + iter + seq![Tok::Open(Delim::Brace)] + body + seq![
            Tok::Close(Delim::Brace),
            Tok::Word(Word::Break),
            semi_tok(),
            Tok::Close(Delim::Brace),
        ],
{
    let items = seq![(pat, iter)];
    let cs = seq![
        ClauseV::ForIn { label: None, items },
        ClauseV::Stmt { toks: body },
    ];
    assert(zip_pat(items) == pat);
    assert(zip_iter(items) == iter);
    let rest = cs.drop_first();
    assert(rest[0] == (ClauseV::Stmt { toks: body }));
    assert(rest.drop_first().len() == 0);
    assert(body_of(rest.drop_first()) == Seq::<Tok>::empty());
    assert(body_of(rest) =~= body);
    assert(for_head(None, items) =~= seq![Tok::Word(Word::For)] + pat + seq![
        Tok::Word(Word::In),
    ] + iter);
    assert(expansion_of(cs) =~= seq![
        Tok::Word(Word::Loop),
        Tok::Open(Delim::Brace),
        Tok::Word(Word::For),
    ] + pat + seq![Tok::Word(Word::In)] + iter + seq![Tok::Open(Delim::Brace)] + body + seq![
        Tok::Close(Delim::Brace),
        Tok::Word(Word::Break),
        semi_tok(),
        Tok::Close(Delim::Brace),
    ]);
}

/// Three zipped `for` items fold from the right: the pattern becomes
/// `(p1, (p2, p3))` and the iterable
/// `(e1).into_iter().zip((e2).into_iter().zip(e3))` — the first item
/// outermost on the left of every tuple, and the nesting depth one less
/// than the item count.
pub proof fn lemma_zip_three(
    p1: Seq<Tok>,
    e1: Seq<Tok>,
    p2: Seq<Tok>,
    e2: Seq<Tok>,
    p3: Seq<Tok>,
    e3: Seq<Tok>,
)
    ensures
        zip_pat(seq![(p1, e1), (p2, e2), (p3, e3)]) == seq![Tok::Open(Delim::Paren)] + p1 + seq![
            comma_tok(),
        ] + (seq![Tok::Open(Delim::Paren)] + p2 + seq![comma_tok()] + p3 + seq![
            Tok::Close(Delim::Paren),
        ]) + seq![Tok::Close(Delim::Paren)],
        zip_iter(seq![(p1, e1), (p2, e2), (p3, e3)]) == seq![Tok::Open(Delim::Paren)] + e1 + seq![
            Tok::Close(Delim::Paren),
            dot_tok(),
            Tok::Word(Word::IntoIter),
            Tok::Open(Delim::Paren),
            Tok::Close(Delim::Paren),
            dot_tok(),
            Tok::Word(Word::Zip),
            Tok::Open(Delim::Paren),
        ] + (seq![Tok::Open(Delim::Paren)] + e2 + seq![
            Tok::Close(Delim::Paren),
            dot_tok(),
            Tok::Word(Word::IntoIter),
            Tok::Open(Delim::Paren),
            Tok::Close(Delim::Paren),
            dot_tok(),
            Tok::Word(Word::Zip),
            Tok::Open(Delim::Paren),
        ] + e3 + seq![Tok::Close(Delim::Paren)]) + seq![Tok::Close(Delim::Paren)],
{
    let all = seq![(p1, e1), (p2, e2), (p3, e3)];
    let two = all.drop_first();
    let one = two.drop_first();
    assert(two =~= seq![(p2, e2), (p3, e3)]);
    assert(one =~= seq![(p3, e3)]);
    assert(zip_pat(one) == p3);
    assert(zip_iter(one) == e3);
    assert(zip_pat(two) == seq![Tok::Open(Delim::Paren)] + p2 + seq![comma_tok()] + p3 + seq![
        Tok::Close(Delim::Paren),
    ]);
    assert(zip_iter(two) == seq![Tok::Open(Delim::Paren)] + e2 + seq![
        Tok::Close(Delim::Paren),
        dot_tok(),
        Tok::Word(Word::IntoIter),
        Tok::Open(Delim::Paren),
        Tok::Close(Delim::Paren),
        dot_tok(),
        Tok::Word(Word::Zip),
        Tok::Open(Delim::Paren),
    ] + e3 + seq![Tok::Close(Delim::Paren)]);
}

/// The classifier tries the bare-guard grammar first: whenever it matches,
/// the clause is committed as a guard — never as an `if let` — and an
/// input whose second token is not `let` cannot match the `if let`
/// grammar at all, so a bare `if <cond>;` is never mistaken for an
/// incomplete binding.
pub proof fn lemma_guard_priority(t: Seq<Tok>)
    ensures
        match parse_guard(t) {
            Some((cond, rest)) => parse_clause(t) == Some(
                ((ClauseV::IfGuard { cond }), rest),
            ),
            None => true,
        },
        (t.len() >= 2 && !is_word(t[1], Word::Let)) ==> parse_if_let(t) is None,
{
}

/// A label parsed on a `for` clause is the input's own lifetime token.
pub proof fn lemma_label_parsed(t: Seq<Tok>)
    requires
        t.len() >= 2,
        is_lifetime(t[0]),
        is_colon(t[1]),
    ensures
        match parse_for_in(t) {
            Some(((label, items), rest)) => label == Some(t[0]),
            None => true,
        },
{
}

/// A label carried on a `for` clause passes through unchanged: the emitted
/// header begins with the very label token, then `:`, then `for`.
pub proof fn lemma_label_emitted(lbl: Tok, items: Seq<(Seq<Tok>, Seq<Tok>)>)
    ensures
        for_head(Some(lbl), items) == seq![lbl, colon_tok(), Tok::Word(Word::For)] + zip_pat(items)
            + seq![Tok::Word(Word::In)] + zip_iter(items),
{
    assert(for_head(Some(lbl), items) =~= seq![lbl, colon_tok(), Tok::Word(Word::For)] + zip_pat(
        items,
    ) + seq![Tok::Word(Word::In)] + zip_iter(items));
}

/// The nesting invariant: the generated body is the head clause's opening
/// tokens, then the whole generation of every clause that followed it,
/// then the head clause's closing tokens; and every clause that is not a
/// plain statement opens exactly one brace whose matching close is its
/// tail — one nesting level per structural clause, outer clauses strictly
/// containing the generation of all later ones.
pub proof fn lemma_nesting(cs: Seq<ClauseV>)
    requires
        cs.len() > 0,
    ensures
        body_of(cs) == clause_head(cs[0]) + body_of(cs.drop_first()) + clause_tail(cs[0]),
        !(cs[0] is Stmt) ==> clause_head(cs[0]).len() > 0 && clause_head(cs[0]).last()
            == Tok::Open(Delim::Brace) && clause_tail(cs[0]) == seq![Tok::Close(Delim::Brace)],
{
    if !(cs[0] is Stmt) {
        match cs[0] {
            ClauseV::IfGuard { cond } => {
                assert(clause_head(cs[0]).last() == Tok::Open(Delim::Brace));
            },
            ClauseV::IfLet { pat, rhs } => {
                assert(clause_head(cs[0]).last() == Tok::Open(Delim::Brace));
            },
            ClauseV::ForIn { label, items } => {
                assert(clause_head(cs[0]).last() == Tok::Open(Delim::Brace));
            },
            ClauseV::Stmt { .. } => {},
        }
    }
}

/// Number of synthesized block openings in a token sequence.
pub open spec fn brace_opens(t: Seq<Tok>) -> int
    decreases t.len(),
{
    if t.len() == 0 {
        0
    } else {
        (if t[0] == Tok::Open(Delim::Brace) {
            1int
        } else {
            0int
        }) + brace_opens(t.drop_first())
    }
}

/// A token sequence that holds no synthesized block opening — true of
/// every captured span, whose tokens come from the input stream.
pub open spec fn no_brace_open(t: Seq<Tok>) -> bool {
    forall|i: int| 0 <= i < t.len() ==> #[trigger] t[i] != Tok::Open(Delim::Brace)
}

/// All of a clause's captured spans are free of synthesized block
/// openings.
pub open spec fn clause_no_brace(cl: ClauseV) -> bool {
    match cl {
        ClauseV::Stmt { toks } => no_brace_open(toks),
        ClauseV::IfGuard { cond } => no_brace_open(cond),
        ClauseV::IfLet { pat, rhs } => no_brace_open(pat) && no_brace_open(rhs),
        ClauseV::ForIn { label, items } => (match label {
            Some(l) => l != Tok::Open(Delim::Brace),
            None => true,
        }) && forall|i: int|
            0 <= i < items.len() ==> no_brace_open(#[trigger] items[i].0) && no_brace_open(
                items[i].1,
            ),
    }
}

/// Number of clauses that are not plain statements.
pub open spec fn structural_count(cs: Seq<ClauseV>) -> int
    decreases cs.len(),
{
    if cs.len() == 0 {
        0
    } else {
        (if cs[0] is Stmt {
            0int
        } else {
            1int
        }) + structural_count(cs.drop_first())
    }
}

proof fn lemma_brace_opens_add(a: Seq<Tok>, b: Seq<Tok>)
    ensures
        brace_opens(a + b) == brace_opens(a) + brace_opens(b),
    decreases a.len(),
{
    if a.len() == 0 {
        assert(a + b =~= b);
    } else {
        assert((a + b).drop_first() =~= a.drop_first() + b);
        assert((a + b)[0] == a[0]);
        lemma_brace_opens_add(a.drop_first(), b);
    }
}

proof fn lemma_no_brace_zero(t: Seq<Tok>)
    requires
        no_brace_open(t),
    ensures
        brace_opens(t) == 0,
    decreases t.len(),
{
    if t.len() > 0 {
        assert(t[0] != Tok::Open(Delim::Brace));
        assert forall|i: int| 0 <= i < t.drop_first().len() implies #[trigger] t.drop_first()[i]
            != Tok::Open(Delim::Brace) by {
            assert(t.drop_first()[i] == t[i + 1]);
        }
        lemma_no_brace_zero(t.drop_first());
    }
}

proof fn lemma_zip_no_brace(items: Seq<(Seq<Tok>, Seq<Tok>)>)
    requires
        forall|i: int| 0 <= i < items.len() ==> no_brace_open(#[trigger] items[i].0),
        forall|i: int| 0 <= i < items.len() ==> no_brace_open(#[trigger] items[i].1),
    ensures
        brace_opens(zip_pat(items)) == 0,
        brace_opens(zip_iter(items)) == 0,
    decreases items.len(),
{
    if items.len() == 0 {
        assert(brace_opens(Seq::<Tok>::empty()) == 0);
    } else if items.len() == 1 {
        lemma_no_brace_zero(items[0].0);
        lemma_no_brace_zero(items[0].1);
    } else {
        let rest = items.drop_first();
        assert forall|i: int| 0 <= i < rest.len() implies no_brace_open(#[trigger] rest[i].0) by {
            assert(rest[i] == items[i + 1]);
        }
        assert forall|i: int| 0 <= i < rest.len() implies no_brace_open(#[trigger] rest[i].1) by {
            assert(rest[i] == items[i + 1]);
        }
        lemma_zip_no_brace(rest);
        lemma_no_brace_zero(items[0].0);
        lemma_no_brace_zero(items[0].1);
        let pa = seq![Tok::Open(Delim::Paren)];
        let pb = seq![comma_tok()];
        let pc = seq![Tok::Close(Delim::Paren)];
        assert(no_brace_open(pa) && no_brace_open(pb) && no_brace_open(pc));
        lemma_no_brace_zero(pa);
        lemma_no_brace_zero(pb);
        lemma_no_brace_zero(pc);
        lemma_brace_opens_add(pa, items[0].0);
        lemma_brace_opens_add(pa + items[0].0, pb);
        lemma_brace_opens_add(pa + items[0].0 + pb, zip_pat(rest));
        lemma_brace_opens_add(pa + items[0].0 + pb + zip_pat(rest), pc);
        let glue = seq![
            Tok::Close(Delim::Paren),
            dot_tok(),
            Tok::Word(Word::IntoIter),
            Tok::Open(Delim::Paren),
            Tok::Close(Delim::Paren),
            dot_tok(),
            Tok::Word(Word::Zip),
            Tok::Open(Delim::Paren),
        ];
        assert(no_brace_open(glue));
        lemma_no_brace_zero(glue);
        lemma_brace_opens_add(pa, items[0].1);
        lemma_brace_opens_add(pa + items[0].1, glue);
        lemma_brace_opens_add(pa + items[0].1 + glue, zip_iter(rest));
        lemma_brace_opens_add(pa + items[0].1 + glue + zip_iter(rest), pc);
    }
}

proof fn lemma_head_braces(cl: ClauseV)
    requires
        clause_no_brace(cl),
    ensures
        brace_opens(clause_head(cl)) == (if cl is Stmt {
            0int
        } else {
            1int
        }),
        brace_opens(clause_tail(cl)) == 0,
{
    let open_b = seq![Tok::Open(Delim::Brace)];
    let close_b = seq![Tok::Close(Delim::Brace)];
    assert(brace_opens(open_b.drop_first()) == 0) by {
        assert(open_b.drop_first() =~= Seq::<Tok>::empty());
    }
    assert(brace_opens(open_b) == 1);
    assert(no_brace_open(close_b));
    lemma_no_brace_zero(close_b);
    match cl {
        ClauseV::Stmt { toks } => {
            lemma_no_brace_zero(toks);
        },
        ClauseV::IfGuard { cond } => {
            let a = seq![Tok::Word(Word::If)];
            assert(no_brace_open(a));
            lemma_no_brace_zero(a);
            lemma_no_brace_zero(cond);
            lemma_brace_opens_add(a, cond);
            lemma_brace_opens_add(a + cond, open_b);
        },
        ClauseV::IfLet { pat, rhs } => {
            let a = seq![Tok::Word(Word::If), Tok::Word(Word::Let)];
            let b = seq![eq_tok()];
            assert(no_brace_open(a) && no_brace_open(b));
            lemma_no_brace_zero(a);
            lemma_no_brace_zero(b);
            lemma_no_brace_zero(pat);
            lemma_no_brace_zero(rhs);
            lemma_brace_opens_add(a, pat);
            lemma_brace_opens_add(a + pat, b);
            lemma_brace_opens_add(a + pat + b, rhs);
            lemma_brace_opens_add(a + pat + b + rhs, open_b);
        },
        ClauseV::ForIn { label, items } => {
            let lt = label_toks(label);
            assert(no_brace_open(lt)) by {
                match label {
                    Some(l) => {
                        assert(lt[0] == l && lt[1] == colon_tok());
                    },
                    None => {},
                }
            }
            lemma_no_brace_zero(lt);
            let f = seq![Tok::Word(Word::For)];
            let i = seq![Tok::Word(Word::In)];
            assert(no_brace_open(f) && no_brace_open(i));
            lemma_no_brace_zero(f);
            lemma_no_brace_zero(i);
            assert forall|j: int| 0 <= j < items.len() implies no_brace_open(
                #[trigger] items[j].0,
            ) by {
                assert(clause_no_brace(cl));
            }
            assert forall|j: int| 0 <= j < items.len() implies no_brace_open(
                #[trigger] items[j].1,
            ) by {
                assert(clause_no_brace(cl));
                assert(no_brace_open(items[j].0));
            }
            lemma_zip_no_brace(items);
            lemma_brace_opens_add(lt, f);
            lemma_brace_opens_add(lt + f, zip_pat(items));
            lemma_brace_opens_add(lt + f + zip_pat(items), i);
            lemma_brace_opens_add(lt + f + zip_pat(items) + i, zip_iter(items));
            lemma_brace_opens_add(for_head(label, items), open_b);
        },
    }
}

/// The count half of the nesting invariant: over spans drawn from the
/// input — which holds no synthesized block openings — the generated body
/// opens exactly one block per clause that is not a plain statement, so a
/// sequence of N structural clauses produces exactly N nested levels
/// before the innermost plain statements.
pub proof fn lemma_nesting_depth(cs: Seq<ClauseV>)
    requires
        forall|i: int| 0 <= i < cs.len() ==> clause_no_brace(#[trigger] cs[i]),
    ensures
        brace_opens(body_of(cs)) == structural_count(cs),
    decreases cs.len(),
{
    if cs.len() > 0 {
        let rest = cs.drop_first();
        assert forall|i: int| 0 <= i < rest.len() implies clause_no_brace(#[trigger] rest[i]) by {
            assert(rest[i] == cs[i + 1]);
        }
        lemma_nesting_depth(rest);
        lemma_head_braces(cs[0]);
        lemma_brace_opens_add(clause_head(cs[0]), body_of(rest));
        lemma_brace_opens_add(clause_head(cs[0]) + body_of(rest), clause_tail(cs[0]));
    }
}

/// A clause position at which every grammar — the statement fallback
/// included — fails is a classification failure at exactly that position,
/// never a silent empty or truncated output; together with `for_ch`'s
/// contract, an error is reported if and only if such a position exists.
pub proof fn lemma_malformed_input(t: Seq<Tok>)
    requires
        t.len() > 0,
        parse_clause(t) is None,
    ensures
        parse_run(t) == (ParseOutcome::Failed { pos: 0 }),
{
}

} // verus!
