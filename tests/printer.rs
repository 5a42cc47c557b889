use lang::ast::{AstExpression, AstExpressionKind};
use lang::lexer::Location;
use lang::parsing::parse;
use lang::pretty_printing::{pretty_print_ast, pretty_print_ast_expression};
use lang::{InternedStr, Interner};

fn render(source: &str) -> String {
    let mut interner = Interner::new();
    let filepath = InternedStr::intern(&mut interner, "test.lang");
    let asts = parse(filepath, source, &mut interner).unwrap();
    let mut out = String::new();
    for ast in &asts {
        pretty_print_ast(ast, 0, &interner, &mut out);
    }
    out
}

#[test]
fn prints_the_demo_program() {
    let source = "
fn foo(param) -> int {
    let x = 1 + 2 * 3;
    let y = x / 2;
    fn double(x) {
        return x * 2;
    }
    let z = double(y);
    return 10 / param - (z - 5);
}
";
    let expected = "fn foo(param) -> int {
    let x = (1 + (2 * 3));
    let y = (x / 2);
    fn double(x) {
        return (x * 2);
    }
    let z = double(y);
    return ((10 / param) - (z - 5));
}
";
    assert_eq!(render(source), expected);
}

#[test]
fn printed_text_parses_back_to_the_same_text() {
    let source = "fn f(a: int, b) { g(a, 0x10, b); { let c: t = a; }; }";
    let once = render(source);
    assert_eq!(
        once,
        "fn f(a: int, b) {\n    g(a, 16, b);\n    {\n        let c: t = a;\n    };\n}\n"
    );
    assert_eq!(render(&once), once);
}

#[test]
fn prints_integers_in_decimal() {
    let mut interner = Interner::new();
    let filepath = InternedStr::intern(&mut interner, "test.lang");
    let location = Location { filepath, position: 0, line: 1, column: 1 };
    let mut out = String::from(">");
    let e = AstExpression { kind: AstExpressionKind::Integer(18446744073709551615), location };
    pretty_print_ast_expression(&e, 0, &interner, &mut out);
    assert_eq!(out, ">18446744073709551615");
    let mut out = String::new();
    let e = AstExpression { kind: AstExpressionKind::Integer(0), location };
    pretty_print_ast_expression(&e, 3, &interner, &mut out);
    assert_eq!(out, "0");
}

#[test]
fn unknown_name_prints_nothing() {
    let mut interner = Interner::new();
    let filepath = InternedStr::intern(&mut interner, "test.lang");
    let known = InternedStr::intern(&mut interner, "known");
    let location = Location { filepath, position: 0, line: 1, column: 1 };
    let mut out = String::new();
    let e = AstExpression { kind: AstExpressionKind::Name(known), location };
    pretty_print_ast_expression(&e, 0, &interner, &mut out);
    assert_eq!(out, "known");
    let mut out = String::new();
    let e = AstExpression { kind: AstExpressionKind::Name(InternedStr { index: 7 }), location };
    pretty_print_ast_expression(&e, 0, &interner, &mut out);
    assert_eq!(out, "");
    assert_eq!(interner.lookup(known), Some("known"));
    assert_eq!(interner.lookup(InternedStr { index: 7 }), None);
}
