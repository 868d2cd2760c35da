//! End-to-end tests of the clause transformer over concrete token streams.

use for_ch::{for_ch, Delim, ForCh, ForChItem, ForIn, ForInItem, Sp, Tok, Word};
use proc_macro2::{Delimiter, Group, Ident, Literal, Span, TokenStream};

fn ident(s: &str) -> Tok {
    Tok::Ident(Ident::new(s, Span::call_site()))
}

fn lifetime(s: &str) -> Tok {
    Tok::Lifetime(Ident::new(s, Span::call_site()))
}

fn num(n: usize) -> Tok {
    Tok::Literal(Literal::usize_unsuffixed(n))
}

fn punct(c: char) -> Tok {
    Tok::Punct(c, Sp::Alone)
}

fn joint(c: char) -> Tok {
    Tok::Punct(c, Sp::Joint)
}

fn semi() -> Tok {
    punct(';')
}

fn paren_group() -> Tok {
    Tok::Group(
        Delim::Paren,
        Group::new(Delimiter::Parenthesis, TokenStream::new()),
    )
}

fn brace_group() -> Tok {
    Tok::Group(Delim::Brace, Group::new(Delimiter::Brace, TokenStream::new()))
}

/// A printable shape of a token, exact enough to compare streams.
fn repr(t: &Tok) -> String {
    match t {
        Tok::Word(w) => format!("kw:{:?}", w),
        Tok::Ident(i) => format!("id:{}", i),
        Tok::Lifetime(i) => format!("lt:{}", i),
        Tok::Literal(l) => format!("lit:{}", l),
        Tok::Punct(c, Sp::Alone) => format!("p:{}A", c),
        Tok::Punct(c, Sp::Joint) => format!("p:{}J", c),
        Tok::Group(d, g) => format!("grp:{:?}:{}", d, g),
        Tok::Open(d) => format!("open:{:?}", d),
        Tok::Close(d) => format!("close:{:?}", d),
    }
}

fn reprs(ts: &[Tok]) -> Vec<String> {
    ts.iter().map(repr).collect()
}

#[test]
fn empty_input_yields_empty_output() {
    let out = for_ch(Vec::new()).unwrap();
    assert!(out.is_empty());
}

#[test]
fn single_statement_round_trips_in_wrapper() {
    // println ! ( ) ;
    let input = vec![ident("println"), punct('!'), paren_group(), semi()];
    let expected = vec![
        ident("println"),
        punct('!'),
        paren_group(),
        semi(),
    ];
    let out = for_ch(input).unwrap();
    let mut want = vec![Tok::Word(Word::Loop), Tok::Open(Delim::Brace)];
    want.extend(expected);
    want.extend(vec![Tok::Word(Word::Break), semi(), Tok::Close(Delim::Brace)]);
    assert_eq!(reprs(&out), reprs(&want));
}

#[test]
fn lone_semicolon_is_an_empty_statement() {
    let out = for_ch(vec![semi()]).unwrap();
    let want = vec![
        Tok::Word(Word::Loop),
        Tok::Open(Delim::Brace),
        semi(),
        Tok::Word(Word::Break),
        semi(),
        Tok::Close(Delim::Brace),
    ];
    assert_eq!(reprs(&out), reprs(&want));
}

#[test]
fn single_for_no_zip_preserves_spans_verbatim() {
    // for x in 0 .. 10 ; body ! ( ) ;
    let input = vec![
        Tok::Word(Word::For),
        ident("x"),
        Tok::Word(Word::In),
        num(0),
        joint('.'),
        punct('.'),
        num(10),
        semi(),
        ident("body"),
        punct('!'),
        paren_group(),
        semi(),
    ];
    let out = for_ch(input).unwrap();
    let want = vec![
        Tok::Word(Word::Loop),
        Tok::Open(Delim::Brace),
        Tok::Word(Word::For),
        ident("x"),
        Tok::Word(Word::In),
        num(0),
        joint('.'),
        punct('.'),
        num(10),
        Tok::Open(Delim::Brace),
        ident("body"),
        punct('!'),
        paren_group(),
        semi(),
        Tok::Close(Delim::Brace),
        Tok::Word(Word::Break),
        semi(),
        Tok::Close(Delim::Brace),
    ];
    assert_eq!(reprs(&out), reprs(&want));
}

#[test]
fn zip_of_three_for_clauses_folds_right() {
    // for x in a, for y in b, for z in c ; go ( ) ;
    let input = vec![
        Tok::Word(Word::For),
        ident("x"),
        Tok::Word(Word::In),
        ident("a"),
        punct(','),
        Tok::Word(Word::For),
        ident("y"),
        Tok::Word(Word::In),
        ident("b"),
        punct(','),
        Tok::Word(Word::For),
        ident("z"),
        Tok::Word(Word::In),
        ident("c"),
        semi(),
        ident("go"),
        paren_group(),
        semi(),
    ];
    let out = for_ch(input).unwrap();
    let op = || Tok::Open(Delim::Paren);
    let cl = || Tok::Close(Delim::Paren);
    let want = vec![
        Tok::Word(Word::Loop),
        Tok::Open(Delim::Brace),
        Tok::Word(Word::For),
        // ( x , ( y , z ) )
        op(),
        ident("x"),
        punct(','),
        op(),
        ident("y"),
        punct(','),
        ident("z"),
        cl(),
        cl(),
        Tok::Word(Word::In),
        // ( a ) . into_iter ( ) . zip ( ( b ) . into_iter ( ) . zip ( c ) )
        op(),
        ident("a"),
        cl(),
        punct('.'),
        Tok::Word(Word::IntoIter),
        op(),
        cl(),
        punct('.'),
        Tok::Word(Word::Zip),
        op(),
        op(),
        ident("b"),
        cl(),
        punct('.'),
        Tok::Word(Word::IntoIter),
        op(),
        cl(),
        punct('.'),
        Tok::Word(Word::Zip),
        op(),
        ident("c"),
        cl(),
        cl(),
        Tok::Open(Delim::Brace),
        ident("go"),
        paren_group(),
        semi(),
        Tok::Close(Delim::Brace),
        Tok::Word(Word::Break),
        semi(),
        Tok::Close(Delim::Brace),
    ];
    assert_eq!(reprs(&out), reprs(&want));
}

#[test]
fn bare_guard_is_classified_as_guard_not_if_let() {
    // if x ; done ( ) ;
    let input = vec![
        Tok::Word(Word::If),
        ident("x"),
        semi(),
        ident("done"),
        paren_group(),
        semi(),
    ];
    let fc = ForCh::parse(input).unwrap();
    assert_eq!(fc.stmts.len(), 2);
    match &fc.stmts[0] {
        ForChItem::IfGuard(g) => assert_eq!(reprs(&g.expr), reprs(&[ident("x")])),
        _ => panic!("expected a guard clause"),
    }
    assert!(matches!(&fc.stmts[1], ForChItem::Stmt(_)));
}

#[test]
fn if_let_is_classified_with_both_spans() {
    // if let x = y ; done ( ) ;
    let input = vec![
        Tok::Word(Word::If),
        Tok::Word(Word::Let),
        ident("x"),
        punct('='),
        ident("y"),
        semi(),
        ident("done"),
        paren_group(),
        semi(),
    ];
    let fc = ForCh::parse(input).unwrap();
    match &fc.stmts[0] {
        ForChItem::IfLet(il) => {
            assert_eq!(reprs(&il.pat), reprs(&[ident("x")]));
            assert_eq!(reprs(&il.expr), reprs(&[ident("y")]));
        },
        _ => panic!("expected an if-let clause"),
    }
}

#[test]
fn range_pattern_equals_does_not_end_if_let_pattern() {
    // if let 0 ..= 9 = x ; y ( ) ;
    let input = vec![
        Tok::Word(Word::If),
        Tok::Word(Word::Let),
        num(0),
        joint('.'),
        joint('.'),
        punct('='),
        num(9),
        punct('='),
        ident("x"),
        semi(),
        ident("y"),
        paren_group(),
        semi(),
    ];
    let fc = ForCh::parse(input).unwrap();
    match &fc.stmts[0] {
        ForChItem::IfLet(il) => {
            assert_eq!(il.pat.len(), 5);
            assert_eq!(reprs(&il.expr), reprs(&[ident("x")]));
        },
        _ => panic!("expected an if-let clause"),
    }
}

#[test]
fn guard_expansion_wraps_rest_in_if_block() {
    // if ok ; work ( ) ;
    let input = vec![
        Tok::Word(Word::If),
        ident("ok"),
        semi(),
        ident("work"),
        paren_group(),
        semi(),
    ];
    let out = for_ch(input).unwrap();
    let want = vec![
        Tok::Word(Word::Loop),
        Tok::Open(Delim::Brace),
        Tok::Word(Word::If),
        ident("ok"),
        Tok::Open(Delim::Brace),
        ident("work"),
        paren_group(),
        semi(),
        Tok::Close(Delim::Brace),
        Tok::Word(Word::Break),
        semi(),
        Tok::Close(Delim::Brace),
    ];
    assert_eq!(reprs(&out), reprs(&want));
}

#[test]
fn label_passes_through_to_emitted_loop() {
    // 'outer : for x in xs ; step ( ) ;
    let input = vec![
        lifetime("outer"),
        punct(':'),
        Tok::Word(Word::For),
        ident("x"),
        Tok::Word(Word::In),
        ident("xs"),
        semi(),
        ident("step"),
        paren_group(),
        semi(),
    ];
    let out = for_ch(input).unwrap();
    let want = vec![
        Tok::Word(Word::Loop),
        Tok::Open(Delim::Brace),
        lifetime("outer"),
        punct(':'),
        Tok::Word(Word::For),
        ident("x"),
        Tok::Word(Word::In),
        ident("xs"),
        Tok::Open(Delim::Brace),
        ident("step"),
        paren_group(),
        semi(),
        Tok::Close(Delim::Brace),
        Tok::Word(Word::Break),
        semi(),
        Tok::Close(Delim::Brace),
    ];
    assert_eq!(reprs(&out), reprs(&want));
}

#[test]
fn nesting_order_one_level_per_structural_clause() {
    // if a ; if b ; x ( ) ;
    let input = vec![
        Tok::Word(Word::If),
        ident("a"),
        semi(),
        Tok::Word(Word::If),
        ident("b"),
        semi(),
        ident("x"),
        paren_group(),
        semi(),
    ];
    let out = for_ch(input).unwrap();
    let want = vec![
        Tok::Word(Word::Loop),
        Tok::Open(Delim::Brace),
        Tok::Word(Word::If),
        ident("a"),
        Tok::Open(Delim::Brace),
        Tok::Word(Word::If),
        ident("b"),
        Tok::Open(Delim::Brace),
        ident("x"),
        paren_group(),
        semi(),
        Tok::Close(Delim::Brace),
        Tok::Close(Delim::Brace),
        Tok::Word(Word::Break),
        semi(),
        Tok::Close(Delim::Brace),
    ];
    assert_eq!(reprs(&out), reprs(&want));
    // one opening brace per structural clause plus the wrapper's own
    let opens = out
        .iter()
        .filter(|t| matches!(t, Tok::Open(Delim::Brace)))
        .count();
    assert_eq!(opens, 3);
}

#[test]
fn malformed_leading_equals_reports_position_zero() {
    let input = vec![punct('='), num(5), semi()];
    let err = for_ch(input).unwrap_err();
    assert_eq!(err.pos, 0);
}

#[test]
fn malformed_for_without_iterable_is_an_error() {
    // for x in ;
    let input = vec![Tok::Word(Word::For), ident("x"), Tok::Word(Word::In), semi()];
    let err = for_ch(input).unwrap_err();
    assert_eq!(err.pos, 0);
}

#[test]
fn error_position_points_at_failing_clause() {
    // x ; = ;
    let input = vec![ident("x"), semi(), punct('='), semi()];
    let err = for_ch(input).unwrap_err();
    assert_eq!(err.pos, 2);
}

#[test]
fn orphan_else_is_rejected() {
    let input = vec![Tok::Word(Word::Else), brace_group(), semi()];
    let err = for_ch(input).unwrap_err();
    assert_eq!(err.pos, 0);
}

#[test]
fn plain_for_statement_passes_through_verbatim() {
    // for x in xs { } let y = 3 ;  — a host for-statement, then a let:
    // the whole run to the `;` is one statement clause, re-emitted verbatim.
    let input = vec![
        Tok::Word(Word::For),
        ident("x"),
        Tok::Word(Word::In),
        ident("xs"),
        brace_group(),
        Tok::Word(Word::Let),
        ident("y"),
        punct('='),
        num(3),
        semi(),
    ];
    let out = for_ch(clone_shape(&input)).unwrap();
    let mut want = vec![Tok::Word(Word::Loop), Tok::Open(Delim::Brace)];
    want.extend(input);
    want.extend(vec![Tok::Word(Word::Break), semi(), Tok::Close(Delim::Brace)]);
    assert_eq!(reprs(&out), reprs(&want));
}

/// Rebuilds an equal-shaped token vector (the library's tokens are moved,
/// not cloned, so a test that needs an input twice rebuilds it).
fn clone_shape(ts: &[Tok]) -> Vec<Tok> {
    ts.iter()
        .map(|t| match t {
            Tok::Word(w) => Tok::Word(*w),
            Tok::Ident(i) => Tok::Ident(i.clone()),
            Tok::Lifetime(i) => Tok::Lifetime(i.clone()),
            Tok::Literal(l) => Tok::Literal(l.clone()),
            Tok::Punct(c, s) => Tok::Punct(*c, *s),
            Tok::Group(d, g) => Tok::Group(*d, g.clone()),
            Tok::Open(d) => Tok::Open(*d),
            Tok::Close(d) => Tok::Close(*d),
        })
        .collect()
}

#[test]
fn full_pipeline_nests_all_clause_kinds() {
    // for x in 0..10;
    // for y in x..10, for _ in 0..5;
    // if let Some(z) = foo(x, y);
    // if x - y < z;
    // report!();
    let some_group = || {
        Tok::Group(
            Delim::Paren,
            Group::new(Delimiter::Parenthesis, "z".parse::<TokenStream>().unwrap()),
        )
    };
    let foo_args = || {
        Tok::Group(
            Delim::Paren,
            Group::new(Delimiter::Parenthesis, "x, y".parse::<TokenStream>().unwrap()),
        )
    };
    let input = vec![
        Tok::Word(Word::For),
        ident("x"),
        Tok::Word(Word::In),
        num(0),
        joint('.'),
        punct('.'),
        num(10),
        semi(),
        Tok::Word(Word::For),
        ident("y"),
        Tok::Word(Word::In),
        ident("x"),
        joint('.'),
        punct('.'),
        num(10),
        punct(','),
        Tok::Word(Word::For),
        ident("_"),
        Tok::Word(Word::In),
        num(0),
        joint('.'),
        punct('.'),
        num(5),
        semi(),
        Tok::Word(Word::If),
        Tok::Word(Word::Let),
        ident("Some"),
        some_group(),
        punct('='),
        ident("foo"),
        foo_args(),
        semi(),
        Tok::Word(Word::If),
        ident("x"),
        punct('-'),
        ident("y"),
        punct('<'),
        ident("z"),
        semi(),
        ident("report"),
        punct('!'),
        paren_group(),
        semi(),
    ];
    let out = for_ch(input).unwrap();
    let op = || Tok::Open(Delim::Paren);
    let cl = || Tok::Close(Delim::Paren);
    let ob = || Tok::Open(Delim::Brace);
    let cb = || Tok::Close(Delim::Brace);
    let want = vec![
        Tok::Word(Word::Loop),
        ob(),
        // for x in 0..10 {
        Tok::Word(Word::For),
        ident("x"),
        Tok::Word(Word::In),
        num(0),
        joint('.'),
        punct('.'),
        num(10),
        ob(),
        // for (y, _) in (x..10).into_iter().zip(0..5) {
        Tok::Word(Word::For),
        op(),
        ident("y"),
        punct(','),
        ident("_"),
        cl(),
        Tok::Word(Word::In),
        op(),
        ident("x"),
        joint('.'),
        punct('.'),
        num(10),
        cl(),
        punct('.'),
        Tok::Word(Word::IntoIter),
        op(),
        cl(),
        punct('.'),
        Tok::Word(Word::Zip),
        op(),
        num(0),
        joint('.'),
        punct('.'),
        num(5),
        cl(),
        ob(),
        // if let Some(z) = foo(x, y) {
        Tok::Word(Word::If),
        Tok::Word(Word::Let),
        ident("Some"),
        some_group(),
        punct('='),
        ident("foo"),
        foo_args(),
        ob(),
        // if x - y < z {
        Tok::Word(Word::If),
        ident("x"),
        punct('-'),
        ident("y"),
        punct('<'),
        ident("z"),
        ob(),
        ident("report"),
        punct('!'),
        paren_group(),
        semi(),
        cb(),
        cb(),
        cb(),
        cb(),
        Tok::Word(Word::Break),
        semi(),
        cb(),
    ];
    assert_eq!(reprs(&out), reprs(&want));
}

#[test]
fn group_contents_pass_through_untouched() {
    // for x in (0..10).map(|v| v) ; use ( x ) ;
    let range = Tok::Group(
        Delim::Paren,
        Group::new(
            Delimiter::Parenthesis,
            "0..10".parse::<TokenStream>().unwrap(),
        ),
    );
    let closure = Tok::Group(
        Delim::Paren,
        Group::new(
            Delimiter::Parenthesis,
            "|v| v".parse::<TokenStream>().unwrap(),
        ),
    );
    let input = vec![
        Tok::Word(Word::For),
        ident("x"),
        Tok::Word(Word::In),
        range,
        punct('.'),
        ident("map"),
        closure,
        semi(),
        ident("consume"),
        paren_group(),
        semi(),
    ];
    let out = for_ch(input).unwrap();
    let shapes = reprs(&out);
    assert!(shapes.contains(&"grp:Paren:(0 .. 10)".to_string()));
    assert!(shapes.contains(&"grp:Paren:(| v | v)".to_string()));
    assert_eq!(shapes[2], "kw:For");
    assert_eq!(shapes[3], "id:x");
    assert_eq!(shapes[4], "kw:In");
}

#[test]
fn zippings_single_item_passes_spans_through() {
    let items = vec![ForInItem {
        pat: vec![ident("x")],
        iter: vec![ident("xs")],
    }];
    let (p, i) = for_ch::for_in_zippings(items);
    assert_eq!(reprs(&p), reprs(&[ident("x")]));
    assert_eq!(reprs(&i), reprs(&[ident("xs")]));
}

#[test]
fn labelled_for_keeps_its_label_token() {
    let input = vec![
        lifetime("outer"),
        punct(':'),
        Tok::Word(Word::For),
        ident("x"),
        Tok::Word(Word::In),
        ident("xs"),
        semi(),
    ];
    let fc = ForCh::parse(input).unwrap();
    match &fc.stmts[0] {
        ForChItem::ForIn(ForIn { label: Some(l), items }) => {
            assert_eq!(repr(l), "lt:outer");
            assert_eq!(items.len(), 1);
        },
        _ => panic!("expected a labelled for clause"),
    }
}
