use minilang::ast::{Expr, FunctionModifier, TypeExpr};
use minilang::parser::{parse_file, parse_value, parse_var_type};

fn lit(t: &[u8]) -> Box<Expr> {
    Box::new(Expr::Literal(t.to_vec()))
}

fn ident(n: &[u8]) -> Box<Expr> {
    Box::new(Expr::Identifier(n.to_vec()))
}

#[test]
fn integer_literal_value() {
    let src = b"123".to_vec();
    let (e, p) = parse_value(&src, 0).unwrap();
    assert_eq!(p, 3);
    assert_eq!(e, Expr::Literal(b"123".to_vec()));
}

#[test]
fn integer_literal_leading_zeros() {
    let src = b"0042".to_vec();
    let (e, p) = parse_value(&src, 0).unwrap();
    assert_eq!(p, 4);
    assert_eq!(e, Expr::Literal(b"0042".to_vec()));
}

#[test]
fn no_sign_accepted() {
    let src = b"-5".to_vec();
    assert!(parse_value(&src, 0).is_none());
}

#[test]
fn no_radix_prefix_accepted() {
    // only the leading digit run is a literal; `x1A` is not part of it
    let src = b"0x1A".to_vec();
    let (e, p) = parse_value(&src, 0).unwrap();
    assert_eq!(p, 1);
    assert_eq!(e, Expr::Literal(b"0".to_vec()));
}

#[test]
fn precedence_mul_over_add() {
    let src = b"1 + 2 * 3".to_vec();
    let (e, p) = parse_value(&src, 0).unwrap();
    assert_eq!(p, 9);
    let expected = Expr::Add(lit(b"1"), Box::new(Expr::Mul(lit(b"2"), lit(b"3"))));
    assert_eq!(e, expected);
}

#[test]
fn precedence_cmp_over_and() {
    let src = b"a < b && c < d".to_vec();
    let (e, _) = parse_value(&src, 0).unwrap();
    let expected = Expr::And(
        Box::new(Expr::Lt(ident(b"a"), ident(b"b"))),
        Box::new(Expr::Lt(ident(b"c"), ident(b"d"))),
    );
    assert_eq!(e, expected);
}

#[test]
fn subtraction_is_left_associative() {
    let src = b"a - b - c".to_vec();
    let (e, _) = parse_value(&src, 0).unwrap();
    let expected = Expr::Sub(Box::new(Expr::Sub(ident(b"a"), ident(b"b"))), ident(b"c"));
    assert_eq!(e, expected);
}

#[test]
fn parentheses_override_precedence() {
    let src = b"(1 + 2) * 3".to_vec();
    let (e, _) = parse_value(&src, 0).unwrap();
    let expected = Expr::Mul(Box::new(Expr::Add(lit(b"1"), lit(b"2"))), lit(b"3"));
    assert_eq!(e, expected);
}

#[test]
fn comments_and_whitespace_are_skipped() {
    let src = b"1 /* block */ + // line\n 2".to_vec();
    let (e, p) = parse_value(&src, 0).unwrap();
    assert_eq!(p, src.len());
    assert_eq!(e, Expr::Add(lit(b"1"), lit(b"2")));
}

#[test]
fn string_escapes_decode() {
    let src = b"\"a\\n\\t\\0\\q\"".to_vec();
    let (e, p) = parse_value(&src, 0).unwrap();
    assert_eq!(p, src.len());
    assert_eq!(e, Expr::String(vec![b'a', 10, 9, 0, b'q']));
}

#[test]
fn char_literal_decodes() {
    let src = b"'\\r'".to_vec();
    let (e, _) = parse_value(&src, 0).unwrap();
    assert_eq!(e, Expr::Char(vec![13]));
}

#[test]
fn call_and_test_marker() {
    let src = b"f(1, &x)".to_vec();
    let (e, p) = parse_value(&src, 0).unwrap();
    assert_eq!(p, src.len());
    let expected = Expr::Call(
        b"f".to_vec(),
        vec![Expr::Literal(b"1".to_vec()), Expr::TestVal(b"x".to_vec())],
    );
    assert_eq!(e, expected);
}

#[test]
fn array_literal_and_access() {
    let src = b"@i32[1, 2][0]".to_vec();
    let (e, p) = parse_value(&src, 0).unwrap();
    assert_eq!(p, src.len());
    let arr = Expr::Array(
        TypeExpr::Ident(b"i32".to_vec()),
        vec![Expr::Literal(b"1".to_vec()), Expr::Literal(b"2".to_vec())],
    );
    let expected = Expr::ArrayAccess(Box::new(arr), lit(b"0"), None);
    assert_eq!(e, expected);
}

#[test]
fn typed_array_access() {
    let src = b"p@u8[4]".to_vec();
    let (e, _) = parse_value(&src, 0).unwrap();
    let expected = Expr::ArrayAccess(
        ident(b"p"),
        lit(b"4"),
        Some(TypeExpr::Ident(b"u8".to_vec())),
    );
    assert_eq!(e, expected);
}

#[test]
fn var_type_forms() {
    let src = b"[i32; 4]".to_vec();
    let (t, p) = parse_var_type(&src, 0).unwrap();
    assert_eq!(p, src.len());
    let expected = TypeExpr::Array(
        Box::new(TypeExpr::Ident(b"i32".to_vec())),
        Box::new(Expr::Literal(b"4".to_vec())),
    );
    assert_eq!(t, expected);

    let unsized_src = b"[u8]".to_vec();
    let (t2, _) = parse_var_type(&unsized_src, 0).unwrap();
    let expected2 = TypeExpr::Array(
        Box::new(TypeExpr::Ident(b"u8".to_vec())),
        Box::new(Expr::Literal(b"0".to_vec())),
    );
    assert_eq!(t2, expected2);
}

#[test]
fn declaration_defaults_to_fixed_linkage() {
    let src = b"fn f(x: i32) -> (i32)".to_vec();
    let stmts = parse_file(&src).unwrap();
    assert_eq!(stmts.len(), 1);
    match &stmts[0] {
        Expr::DefFunc(d) => {
            assert_eq!(d.name, b"f".to_vec());
            assert!(d.modifiers.contains(FunctionModifier::NoMangle));
            assert_eq!(d.params.len(), 1);
            assert_eq!(d.params[0].0, b"x".to_vec());
            assert_eq!(d.return_type, TypeExpr::Ident(b"i32".to_vec()));
        },
        other => panic!("expected a declaration, got {:?}", other),
    }
}

#[test]
fn definition_defaults_to_no_modifiers() {
    let src = b"fn f(x: i32) -> (i32) { return x; }".to_vec();
    let stmts = parse_file(&src).unwrap();
    assert_eq!(stmts.len(), 1);
    match &stmts[0] {
        Expr::Function(f) => {
            assert_eq!(f.name, b"f".to_vec());
            assert!(!f.modifiers.contains(FunctionModifier::NoMangle));
            assert_eq!(f.stmts.len(), 1);
            assert_eq!(
                f.stmts[0],
                Expr::Return(Some(Box::new(Expr::Identifier(b"x".to_vec()))))
            );
        },
        other => panic!("expected a definition, got {:?}", other),
    }
}

#[test]
fn explicit_modifier_synonyms() {
    let src = b"fn<C> g()".to_vec();
    let stmts = parse_file(&src).unwrap();
    match &stmts[0] {
        Expr::DefFunc(d) => {
            assert!(d.modifiers.contains(FunctionModifier::NoMangle));
            assert_eq!(d.return_type, TypeExpr::Void);
        },
        other => panic!("expected a declaration, got {:?}", other),
    }

    let src2 = b"fn<no_mangle> h() { }".to_vec();
    let stmts2 = parse_file(&src2).unwrap();
    match &stmts2[0] {
        Expr::Function(f) => assert!(f.modifiers.contains(FunctionModifier::NoMangle)),
        other => panic!("expected a definition, got {:?}", other),
    }

    // an explicitly empty list overrides the declaration default
    let src3 = b"fn<> e()".to_vec();
    let stmts3 = parse_file(&src3).unwrap();
    match &stmts3[0] {
        Expr::DefFunc(d) => assert!(!d.modifiers.contains(FunctionModifier::NoMangle)),
        other => panic!("expected a declaration, got {:?}", other),
    }
}

#[test]
fn statements_while_if_assign() {
    let src = b"x: i32 = 0 while x < 3 { x = x + 1 } if x == 3 { f(x) } else { g() }".to_vec();
    let stmts = parse_file(&src).unwrap();
    assert_eq!(stmts.len(), 3);
    assert!(matches!(stmts[0], Expr::DefVar(_, _)));
    assert!(matches!(stmts[1], Expr::WhileLoop(_, _)));
    assert!(matches!(stmts[2], Expr::IfElse(_, _, _)));
}

#[test]
fn failure_is_atomic_and_positioned() {
    // an error inside the second function reports a position inside it,
    // and the successfully parsed first function does not disturb it
    let with_prefix = b"fn good() { } fn bad( @@".to_vec();
    let alone = b"fn bad( @@".to_vec();
    let e1 = parse_file(&with_prefix).unwrap_err();
    let e2 = parse_file(&alone).unwrap_err();
    assert_eq!(e2.pos, 0);
    assert_eq!(e1.pos, 14);
    assert_eq!(e1.pos as usize, e2.pos as usize + 14);
}

#[test]
fn unterminated_block_comment_fails() {
    let src = b"1 /* never closed".to_vec();
    let (_, p) = parse_value(&src, 0).unwrap();
    // the expression ends before the dangling comment
    assert_eq!(p, 1);
    assert!(parse_file(&src).is_err());
}

#[test]
fn empty_input_is_a_program() {
    let src = Vec::new();
    assert_eq!(parse_file(&src).unwrap(), Vec::new());
}

#[test]
fn statement_call_must_be_bare() {
    // a parenthesized call is an expression, not a statement
    let src = b"(f(1))".to_vec();
    assert!(parse_file(&src).is_err());
    // a bare call with nested calls is a statement
    let ok = b"f(g(1), 2)".to_vec();
    let stmts = parse_file(&ok).unwrap();
    assert_eq!(stmts.len(), 1);
    assert!(matches!(stmts[0], Expr::Call(_, _)));
}

#[test]
fn declaration_params_parse() {
    let src = b"fn f(x: i32, y: [u8; 2])".to_vec();
    let stmts = parse_file(&src).unwrap();
    match &stmts[0] {
        Expr::DefFunc(d) => {
            assert_eq!(d.params.len(), 2);
            assert_eq!(d.params[0].0, b"x".to_vec());
            assert_eq!(d.params[1].0, b"y".to_vec());
            assert_eq!(d.params[0].1, TypeExpr::Ident(b"i32".to_vec()));
        },
        other => panic!("expected a declaration, got {:?}", other),
    }
}
