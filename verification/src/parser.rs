//! The clause classifier: executable parsing, verified against the grammar.
//!
//! Each clause parser consumes its tokens by value and hands back the
//! remaining input; a parser that fails hands the whole input back
//! unchanged, so a rejected candidate has no observable effect.  This is
//! the speculative-parse-then-commit discipline: candidates are decided by
//! pure scans over borrowed input, and only the winning candidate's
//! consumption is committed.

use vstd::prelude::*;

use crate::grammar::{
    is_brace_group, is_colon, is_comma, is_eq_alone, is_joint_punct, is_lifetime, is_semi,
    is_word, parse_clause, parse_for_in, parse_for_item, parse_for_items, parse_guard,
    parse_if_let, parse_run, parse_stmt, scan_expr, scan_pat_eq, scan_pat_in, scan_semi,
    stmt_run_ok, ClauseV, ParseOutcome,
};
use crate::tokens::{Delim, Sp, Tok, Word};

verus! {

/// The one error of the transformer: at `pos`, the input matched no clause
/// grammar and failed as a general statement as well.
#[derive(Clone, Copy, PartialEq, Eq, Structural, Debug)]
pub struct ParseError {
    /// Index of the first token of the clause that could not be parsed.
    pub pos: usize,
}

// ---------------------------------------------------------------------------
// Executable token classifiers
// ---------------------------------------------------------------------------

pub fn tok_is_word(tk: &Tok, w: Word) -> (b: bool)
    ensures
        b == is_word(*tk, w),
{
    match tk {
        Tok::Word(w2) => *w2 == w,
        _ => false,
    }
}

pub fn tok_is_semi(tk: &Tok) -> (b: bool)
    ensures
        b == is_semi(*tk),
{
    match tk {
        Tok::Punct(c, _) => *c == ';',
        _ => false,
    }
}

pub fn tok_is_comma(tk: &Tok) -> (b: bool)
    ensures
        b == is_comma(*tk),
{
    match tk {
        Tok::Punct(c, _) => *c == ',',
        _ => false,
    }
}

pub fn tok_is_colon(tk: &Tok) -> (b: bool)
    ensures
        b == is_colon(*tk),
{
    match tk {
        Tok::Punct(c, _) => *c == ':',
        _ => false,
    }
}

pub fn tok_is_eq_alone(tk: &Tok) -> (b: bool)
    ensures
        b == is_eq_alone(*tk),
{
    match tk {
        Tok::Punct(c, sp) => *c == '=' && *sp == Sp::Alone,
        _ => false,
    }
}

pub fn tok_is_joint_punct(tk: &Tok) -> (b: bool)
    ensures
        b == is_joint_punct(*tk),
{
    match tk {
        Tok::Punct(_, sp) => *sp == Sp::Joint,
        _ => false,
    }
}

pub fn tok_is_lifetime(tk: &Tok) -> (b: bool)
    ensures
        b == is_lifetime(*tk),
{
    match tk {
        Tok::Lifetime(_) => true,
        _ => false,
    }
}

fn tok_stops_expr(tk: &Tok) -> (b: bool)
    ensures
        b == (is_semi(*tk) || is_comma(*tk) || is_brace_group(*tk)),
{
    match tk {
        Tok::Punct(c, _) => *c == ';' || *c == ',',
        Tok::Group(d, _) => *d == Delim::Brace,
        _ => false,
    }
}

// ---------------------------------------------------------------------------
// Executable capture scans
// ---------------------------------------------------------------------------

pub fn scan_expr_exec(t: &Vec<Tok>, p: usize) -> (r: usize)
    requires
        p <= t@.len(),
    ensures
        r == scan_expr(t@, p as int),
        p <= r <= t@.len(),
{
    let mut i: usize = p;
    while i < t.len()
        invariant
            p <= i <= t@.len(),
            scan_expr(t@, p as int) == scan_expr(t@, i as int),
        decreases t@.len() - i,
    {
        if tok_stops_expr(&t[i]) {
            return i;
        }
        i = i + 1;
    }
    i
}

pub fn scan_pat_in_exec(t: &Vec<Tok>, p: usize) -> (r: usize)
    requires
        p <= t@.len(),
    ensures
        r == scan_pat_in(t@, p as int),
        p <= r <= t@.len(),
{
    let mut i: usize = p;
    while i < t.len()
        invariant
            p <= i <= t@.len(),
            scan_pat_in(t@, p as int) == scan_pat_in(t@, i as int),
        decreases t@.len() - i,
    {
        if tok_is_word(&t[i], Word::In) || tok_is_semi(&t[i]) || tok_is_comma(&t[i]) {
            return i;
        }
        i = i + 1;
    }
    i
}

pub fn scan_pat_eq_exec(t: &Vec<Tok>, p: usize) -> (r: usize)
    requires
        p <= t@.len(),
    ensures
        r == scan_pat_eq(t@, p as int),
        p <= r <= t@.len(),
{
    let mut i: usize = p;
    while i < t.len()
        invariant
            p <= i <= t@.len(),
            scan_pat_eq(t@, p as int) == scan_pat_eq(t@, i as int),
        decreases t@.len() - i,
    {
        if tok_is_semi(&t[i]) || tok_is_comma(&t[i]) {
            return i;
        }
        if tok_is_eq_alone(&t[i]) && (i == 0 || !tok_is_joint_punct(&t[i - 1])) {
            return i;
        }
        i = i + 1;
    }
    i
}

// ---------------------------------------------------------------------------
// Clause nodes
// ---------------------------------------------------------------------------

/// One `for <pattern> in <iterable>` item of a `for`-in group.
pub struct ForInItem {
    pub pat: Vec<Tok>,
    pub iter: Vec<Tok>,
}

impl View for ForInItem {
    type V = (Seq<Tok>, Seq<Tok>);

    open spec fn view(&self) -> (Seq<Tok>, Seq<Tok>) {
        (self.pat@, self.iter@)
    }
}

pub open spec fn items_view(items: Seq<ForInItem>) -> Seq<(Seq<Tok>, Seq<Tok>)> {
    items.map_values(|it: ForInItem| it@)
}

/// `['label:] for x in xs (, for y in ys)* ;` — at least one item.
pub struct ForIn {
    pub label: Option<Tok>,
    pub items: Vec<ForInItem>,
}

impl View for ForIn {
    type V = (Option<Tok>, Seq<(Seq<Tok>, Seq<Tok>)>);

    open spec fn view(&self) -> (Option<Tok>, Seq<(Seq<Tok>, Seq<Tok>)>) {
        (self.label, items_view(self.items@))
    }
}

/// `if let <pat> = <expr> ;`.
pub struct IfLet {
    pub pat: Vec<Tok>,
    pub expr: Vec<Tok>,
}

impl View for IfLet {
    type V = (Seq<Tok>, Seq<Tok>);

    open spec fn view(&self) -> (Seq<Tok>, Seq<Tok>) {
        (self.pat@, self.expr@)
    }
}

/// `if <expr> ;`.
pub struct IfGuard {
    pub expr: Vec<Tok>,
}

impl View for IfGuard {
    type V = Seq<Tok>;

    open spec fn view(&self) -> Seq<Tok> {
        self.expr@
    }
}

/// One classified clause.
pub enum ForChItem {
    Stmt(Vec<Tok>),
    IfLet(IfLet),
    IfGuard(IfGuard),
    ForIn(ForIn),
}

impl View for ForChItem {
    type V = ClauseV;

    open spec fn view(&self) -> ClauseV {
        match self {
            ForChItem::Stmt(v) => ClauseV::Stmt { toks: v@ },
            ForChItem::IfLet(il) => ClauseV::IfLet { pat: il.pat@, rhs: il.expr@ },
            ForChItem::IfGuard(g) => ClauseV::IfGuard { cond: g.expr@ },
            ForChItem::ForIn(fi) => ClauseV::ForIn {
                label: fi.label,
                items: items_view(fi.items@),
            },
        }
    }
}

/// The whole classified invocation: an ordered clause sequence.
pub struct ForCh {
    pub stmts: Vec<ForChItem>,
}

pub open spec fn clauses_view(s: Seq<ForChItem>) -> Seq<ClauseV> {
    s.map_values(|c: ForChItem| c@)
}

impl View for ForCh {
    type V = Seq<ClauseV>;

    open spec fn view(&self) -> Seq<ClauseV> {
        clauses_view(self.stmts@)
    }
}

pub fn scan_semi_exec(t: &Vec<Tok>, p: usize) -> (r: usize)
    requires
        p <= t@.len(),
    ensures
        r == scan_semi(t@, p as int),
        p <= r <= t@.len(),
{
    let mut i: usize = p;
    while i < t.len()
        invariant
            p <= i <= t@.len(),
            scan_semi(t@, p as int) == scan_semi(t@, i as int),
        decreases t@.len() - i,
    {
        if tok_is_semi(&t[i]) {
            return i;
        }
        i = i + 1;
    }
    i
}

// ---------------------------------------------------------------------------
// Shift lemmas: a clause parsed at position `k` of a stream reads the same
// spans as the same clause parsed at the front of the stream's `k`-suffix.
// ---------------------------------------------------------------------------

proof fn lemma_scan_pat_in_bounds(t: Seq<Tok>, p: int)
    requires
        0 <= p <= t.len(),
    ensures
        p <= scan_pat_in(t, p) <= t.len(),
    decreases t.len() - p,
{
    if p < t.len() && !(is_word(t[p], Word::In) || is_semi(t[p]) || is_comma(t[p])) {
        lemma_scan_pat_in_bounds(t, p + 1);
    }
}

proof fn lemma_scan_expr_bounds(t: Seq<Tok>, p: int)
    requires
        0 <= p <= t.len(),
    ensures
        p <= scan_expr(t, p) <= t.len(),
    decreases t.len() - p,
{
    if p < t.len() && !(is_semi(t[p]) || is_comma(t[p]) || is_brace_group(t[p])) {
        lemma_scan_expr_bounds(t, p + 1);
    }
}

proof fn lemma_scan_pat_in_shift(t: Seq<Tok>, k: int, p: int)
    requires
        0 <= k <= p <= t.len(),
    ensures
        scan_pat_in(t.subrange(k, t.len() as int), p - k) == scan_pat_in(t, p) - k,
    decreases t.len() - p,
{
    let s = t.subrange(k, t.len() as int);
    if p < t.len() {
        assert(s[p - k] == t[p]);
        if !(is_word(t[p], Word::In) || is_semi(t[p]) || is_comma(t[p])) {
            lemma_scan_pat_in_shift(t, k, p + 1);
        }
    }
}

proof fn lemma_scan_expr_shift(t: Seq<Tok>, k: int, p: int)
    requires
        0 <= k <= p <= t.len(),
    ensures
        scan_expr(t.subrange(k, t.len() as int), p - k) == scan_expr(t, p) - k,
    decreases t.len() - p,
{
    let s = t.subrange(k, t.len() as int);
    if p < t.len() {
        assert(s[p - k] == t[p]);
        if !(is_semi(t[p]) || is_comma(t[p]) || is_brace_group(t[p])) {
            lemma_scan_expr_shift(t, k, p + 1);
        }
    }
}

proof fn lemma_for_item_shift(t: Seq<Tok>, k: int)
    requires
        0 <= k <= t.len(),
    ensures
        match parse_for_item(t, k) {
            Some((pat, iter, e)) => parse_for_item(
                t.subrange(k, t.len() as int),
                0,
            ) == Some((pat, iter, e - k)),
            None => parse_for_item(t.subrange(k, t.len() as int), 0) is None,
        },
{
    let s = t.subrange(k, t.len() as int);
    if k < t.len() {
        assert(s[0] == t[k]);
    }
    if k < t.len() && is_word(t[k], Word::For) {
        lemma_scan_pat_in_bounds(t, k + 1);
        lemma_scan_pat_in_shift(t, k, k + 1);
        let q = scan_pat_in(t, k + 1);
        if q < t.len() {
            assert(s[q - k] == t[q]);
        }
        if k + 1 < q && q < t.len() && is_word(t[q], Word::In) {
            lemma_scan_expr_bounds(t, q + 1);
            lemma_scan_expr_shift(t, k, q + 1);
            let e = scan_expr(t, q + 1);
            if q + 1 < e && e <= t.len() {
                assert(s.subrange(1, q - k) =~= t.subrange(k + 1, q));
                assert(s.subrange(q - k + 1, e - k) =~= t.subrange(q + 1, e));
            }
        }
    }
}

// ---------------------------------------------------------------------------
// Clause parsers
// ---------------------------------------------------------------------------

impl IfGuard {
    /// Speculative parse of `if <cond> ;`.  On failure the input is handed
    /// back unchanged, so the rejected candidate has no observable effect.
    pub fn parse(t: Vec<Tok>) -> (r: Result<(IfGuard, Vec<Tok>), Vec<Tok>>)
        ensures
            match parse_guard(t@) {
                Some((cond, rest)) => r matches Ok((g, rv)) && g@ == cond && rv@ == rest,
                None => r matches Err(orig) && orig@ == t@,
            },
    {
        if !(t.len() >= 1 && tok_is_word(&t[0], Word::If)) {
            return Err(t);
        }
        if t.len() >= 2 && tok_is_word(&t[1], Word::Let) {
            return Err(t);
        }
        let e = scan_expr_exec(&t, 1);
        if !(1 < e && e < t.len() && tok_is_semi(&t[e])) {
            return Err(t);
        }
        let ghost t0 = t@;
        let mut u = t;
        let rest = u.split_off(e + 1);
        u.truncate(e);
        u.remove(0);
        proof {
            assert(u@ =~= t0.subrange(1, e as int));
        }
        Ok((IfGuard { expr: u }, rest))
    }
}

impl IfLet {
    /// Speculative parse of `if let <pat> = <rhs> ;`.  On failure the input
    /// is handed back unchanged.
    pub fn parse(t: Vec<Tok>) -> (r: Result<(IfLet, Vec<Tok>), Vec<Tok>>)
        ensures
            match parse_if_let(t@) {
                Some(((pat, rhs), rest)) => r matches Ok((il, rv)) && il.pat@ == pat
                    && il.expr@ == rhs && rv@ == rest,
                None => r matches Err(orig) && orig@ == t@,
            },
    {
        if !(t.len() >= 2 && tok_is_word(&t[0], Word::If) && tok_is_word(&t[1], Word::Let)) {
            return Err(t);
        }
        let q = scan_pat_eq_exec(&t, 2);
        if !(2 < q && q < t.len() && tok_is_eq_alone(&t[q])) {
            return Err(t);
        }
        let e = scan_expr_exec(&t, q + 1);
        if !(q + 1 < e && e < t.len() && tok_is_semi(&t[e])) {
            return Err(t);
        }
        let ghost t0 = t@;
        let mut u = t;
        let rest = u.split_off(e + 1);
        u.truncate(e);
        u.remove(0);
        u.remove(0);
        let mut rhs_v = u.split_off(q - 2);
        rhs_v.remove(0);
        proof {
            assert(u@ =~= t0.subrange(2, q as int));
            assert(rhs_v@ =~= t0.subrange(q + 1, e as int));
        }
        Ok((IfLet { pat: u, expr: rhs_v }, rest))
    }
}

impl ForInItem {
    /// Speculative parse of one `for <pat> in <iter>` item at the front of
    /// the input.  On success the remaining input still begins with the
    /// token that ended the iterable capture (`,`, `;`, or a brace group);
    /// on failure the input is handed back unchanged.
    pub fn parse(t: Vec<Tok>) -> (r: Result<(ForInItem, Vec<Tok>), Vec<Tok>>)
        ensures
            match parse_for_item(t@, 0) {
                Some((pat, iter, e)) => r matches Ok((it, rv)) && it.pat@ == pat
                    && it.iter@ == iter && rv@ == t@.subrange(e, t@.len() as int),
                None => r matches Err(orig) && orig@ == t@,
            },
    {
        if !(t.len() >= 1 && tok_is_word(&t[0], Word::For)) {
            return Err(t);
        }
        let q = scan_pat_in_exec(&t, 1);
        if !(1 < q && q < t.len() && tok_is_word(&t[q], Word::In)) {
            return Err(t);
        }
        let e = scan_expr_exec(&t, q + 1);
        if !(q + 1 < e) {
            return Err(t);
        }
        let ghost t0 = t@;
        let mut u = t;
        let rest = u.split_off(e);
        u.remove(0);
        let mut iter_v = u.split_off(q - 1);
        iter_v.remove(0);
        proof {
            assert(u@ =~= t0.subrange(1, q as int));
            assert(iter_v@ =~= t0.subrange(q + 1, e as int));
        }
        Ok((ForInItem { pat: u, iter: iter_v }, rest))
    }
}

/// Non-destructive check of a whole item list starting at `p`: yields the
/// index just past the last iterable if the list matches.
fn try_for_items_end(t: &Vec<Tok>, p: usize) -> (r: Option<usize>)
    requires
        p <= t@.len(),
    ensures
        match parse_for_items(t@, p as int) {
            Some((items, e)) => r matches Some(ee) && ee as int == e,
            None => r is None,
        },
    decreases t@.len() - p,
{
    if !(p < t.len() && tok_is_word(&t[p], Word::For)) {
        return None;
    }
    let q = scan_pat_in_exec(t, p + 1);
    if !(p + 1 < q && q < t.len() && tok_is_word(&t[q], Word::In)) {
        return None;
    }
    let e = scan_expr_exec(t, q + 1);
    if !(q + 1 < e) {
        return None;
    }
    if e < t.len() && tok_is_comma(&t[e]) && e + 1 < t.len() && tok_is_word(&t[e + 1], Word::For) {
        try_for_items_end(t, e + 1)
    } else {
        Some(e)
    }
}

/// Committed extraction of an item list whose shape `try_for_items_end` has
/// already validated: `r` is the suffix of the original stream `t0` from
/// position `pos`, where the list begins.
fn extract_items(r: Vec<Tok>, pos: usize, Ghost(t0): Ghost<Seq<Tok>>) -> (res: (
    Vec<ForInItem>,
    Vec<Tok>,
))
    requires
        pos <= t0.len() <= usize::MAX,
        r@ == t0.subrange(pos as int, t0.len() as int),
        parse_for_items(t0, pos as int) is Some,
    ensures
        match parse_for_items(t0, pos as int) {
            Some((iv, end)) => items_view(res.0@) == iv && res.1@ == t0.subrange(
                end,
                t0.len() as int,
            ),
            None => false,
        },
    decreases t0.len() - pos,
{
    proof {
        lemma_for_item_shift(t0, pos as int);
    }
    let rlen = r.len();
    match ForInItem::parse(r) {
        Err(orig) => {
            // unreachable: the item list was validated before extraction
            proof {
                assert(parse_for_item(t0, pos as int) is Some);
                assert(false);
            }
            (Vec::new(), orig)
        },
        Ok((it, rv)) => {
            let ghost (pat, iter, e_abs) = parse_for_item(t0, pos as int).unwrap();
            let e_rel = rlen - rv.len();
            proof {
                assert(rv@ =~= t0.subrange(e_abs, t0.len() as int));
                assert(e_rel as int == e_abs - pos);
            }
            let e: usize = pos + e_rel;
            if rv.len() >= 2 && tok_is_comma(&rv[0]) && tok_is_word(&rv[1], Word::For) {
                let mut rv = rv;
                rv.remove(0);
                proof {
                    assert(rv@ =~= t0.subrange(e as int + 1, t0.len() as int));
                }
                let (mut items, rest) = extract_items(rv, e + 1, Ghost(t0));
                let ghost prev = items@;
                items.insert(0, it);
                proof {
                    assert(items_view(items@) =~= seq![it@] + items_view(prev));
                }
                (items, rest)
            } else {
                let mut items: Vec<ForInItem> = Vec::new();
                items.push(it);
                proof {
                    assert(items_view(items@) =~= seq![it@]);
                }
                (items, rv)
            }
        },
    }
}

impl ForIn {
    /// Speculative parse of a whole `for`-in group clause, label and
    /// terminating `;` included.  On failure the input is handed back
    /// unchanged: the item list is validated by non-destructive scans
    /// before any token is consumed.
    pub fn parse(t: Vec<Tok>) -> (r: Result<(ForIn, Vec<Tok>), Vec<Tok>>)
        ensures
            match parse_for_in(t@) {
                Some(((label, items), rest)) => r matches Ok((fi, rv)) && fi.label == label
                    && items_view(fi.items@) == items && rv@ == rest && rv@.len() < t@.len(),
                None => r matches Err(orig) && orig@ == t@,
            },
    {
        let labeled = t.len() >= 2 && tok_is_lifetime(&t[0]) && tok_is_colon(&t[1]);
        let start: usize = if labeled {
            2
        } else {
            0
        };
        match try_for_items_end(&t, start) {
            None => Err(t),
            Some(e) => {
                if e < t.len() && tok_is_semi(&t[e]) {
                    let ghost t0 = t@;
                    let mut u = t;
                    let label: Option<Tok> = if labeled {
                        let lab = u.remove(0);
                        u.remove(0);
                        Some(lab)
                    } else {
                        None
                    };
                    proof {
                        assert(u@ =~= t0.subrange(start as int, t0.len() as int));
                    }
                    let (items, mut rest) = extract_items(u, start, Ghost(t0));
                    rest.remove(0);
                    proof {
                        assert(rest@ =~= t0.subrange(e + 1, t0.len() as int));
                    }
                    Ok((ForIn { label, items }, rest))
                } else {
                    Err(t)
                }
            },
        }
    }
}

/// Whether the run `t[1 .. s-1]` holds an `in` keyword with at least one
/// token on each side — the shape test for a `for`-statement run.
fn has_in_before(t: &Vec<Tok>, s: usize) -> (b: bool)
    requires
        1 <= s && s <= t@.len(),
    ensures
        b == (exists|q: int| 1 < q && q + 1 < s && #[trigger] is_word(t@[q], Word::In)),
{
    let mut i: usize = 2;
    while i < s - 1
        invariant
            2 <= i,
            1 <= s && s <= t@.len(),
            forall|q: int| 1 < q < i ==> !#[trigger] is_word(t@[q], Word::In),
        decreases s - i,
    {
        if tok_is_word(&t[i], Word::In) {
            assert(1 < i && i + 1 < s && is_word(t@[i as int], Word::In));
            return true;
        }
        i = i + 1;
    }
    false
}

/// The shape test `stmt_run_ok`, executably.
fn stmt_first_ok(t: &Vec<Tok>, s: usize) -> (b: bool)
    requires
        1 <= s && s <= t@.len(),
    ensures
        b == stmt_run_ok(t@, s as int),
{
    match &t[0] {
        Tok::Word(w) => match w {
            Word::In => false,
            Word::Else => false,
            Word::Let => s >= 2 && !tok_is_eq_alone(&t[1]) && s < t.len(),
            Word::If => s >= 2,
            Word::For => has_in_before(t, s),
            _ => true,
        },
        Tok::Punct(c, _) => !(*c == ',' || *c == ':' || *c == '='),
        _ => true,
    }
}

/// The fallback: one ordinary statement, captured verbatim up to and
/// including its terminating `;` (or to the end of the input).  Unlike the
/// specialized grammars this parser does not hand the input back on
/// failure: its failure fails the whole classification.
fn parse_stmt_exec(t: Vec<Tok>) -> (r: Result<(Vec<Tok>, Vec<Tok>), ()>)
    ensures
        match parse_stmt(t@) {
            Some((toks, rest)) => r matches Ok((tv, rv)) && tv@ == toks && rv@ == rest,
            None => r is Err,
        },
{
    if t.len() == 0 {
        return Err(());
    }
    let s = scan_semi_exec(&t, 0);
    if s == 0 {
        let mut u = t;
        let rest = u.split_off(1);
        return Ok((u, rest));
    }
    if !stmt_first_ok(&t, s) {
        return Err(());
    }
    let c: usize = if s < t.len() {
        s + 1
    } else {
        t.len()
    };
    let mut u = t;
    let rest = u.split_off(c);
    Ok((u, rest))
}

/// One clause from the head of the input, classified by trying the
/// grammars in priority order — bare guard first, then `if let`, then
/// `for`-in, then the statement fallback.
fn parse_clause_exec(t: Vec<Tok>) -> (r: Result<(ForChItem, Vec<Tok>), ()>)
    ensures
        match parse_clause(t@) {
            Some((cl, rest)) => r matches Ok((item, rv)) && item@ == cl && rv@ == rest
                && rv@.len() < t@.len(),
            None => r is Err,
        },
{
    let ghost t0 = t@;
    let t = match IfGuard::parse(t) {
        Ok((g, rest)) => {
            proof {
                assert(rest@.len() < t0.len());
            }
            return Ok((ForChItem::IfGuard(g), rest));
        },
        Err(orig) => orig,
    };
    let t = match IfLet::parse(t) {
        Ok((il, rest)) => {
            return Ok((ForChItem::IfLet(il), rest));
        },
        Err(orig) => orig,
    };
    let t = match ForIn::parse(t) {
        Ok((fi, rest)) => {
            return Ok((ForChItem::ForIn(fi), rest));
        },
        Err(orig) => orig,
    };
    match parse_stmt_exec(t) {
        Ok((v, rest)) => Ok((ForChItem::Stmt(v), rest)),
        Err(()) => Err(()),
    }
}

impl ForCh {
    /// Classifies a whole invocation into its ordered clause sequence, or
    /// reports the index of the first token of the clause at which every
    /// grammar — the statement fallback included — failed.
    pub fn parse(t: Vec<Tok>) -> (r: Result<ForCh, ParseError>)
        ensures
            match parse_run(t@) {
                ParseOutcome::Parsed { clauses } => r matches Ok(fc) && fc@ == clauses,
                ParseOutcome::Failed { pos } => r matches Err(e) && e.pos == pos && pos
                    < t@.len(),
            },
        decreases t@.len(),
    {
        if t.len() == 0 {
            let fc = ForCh { stmts: Vec::new() };
            proof {
                assert(fc@ =~= Seq::<ClauseV>::empty());
            }
            return Ok(fc);
        }
        let tlen = t.len();
        let ghost t0 = t@;
        match parse_clause_exec(t) {
            Err(()) => Err(ParseError { pos: 0 }),
            Ok((item, rest)) => {
                let c = tlen - rest.len();
                let ghost cl = item@;
                match ForCh::parse(rest) {
                    Ok(mut fc) => {
                        let ghost prev = fc.stmts@;
                        fc.stmts.insert(0, item);
                        proof {
                            assert(fc@ =~= seq![cl] + prev.map_values(|x: ForChItem| x@));
                        }
                        Ok(fc)
                    },
                    Err(e) => Err(ParseError { pos: c + e.pos }),
                }
            },
        }
    }
}

} // verus!
