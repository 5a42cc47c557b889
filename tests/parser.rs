use lang::ast::{Ast, AstExpression, AstExpressionKind, AstKind, AstPatternKind, BinaryOperator};
use lang::lexer::{Lexer, LexerErrorKind, Location, TokenKind};
use lang::parsing::{parse, parse_expression, parse_statement, ParseError, ParseErrorKind};
use lang::{InternedStr, Interner};

fn setup(source: &str) -> (Lexer, Interner, InternedStr) {
    let mut interner = Interner::new();
    let filepath = InternedStr::intern(&mut interner, "test.lang");
    (Lexer::new(filepath, source), interner, filepath)
}

fn expression(source: &str) -> (AstExpression, Interner) {
    let (mut lexer, mut interner, _) = setup(source);
    let e = parse_expression(&mut lexer, &mut interner).unwrap();
    (e, interner)
}

fn shape(e: &AstExpression, interner: &Interner) -> String {
    match &e.kind {
        AstExpressionKind::Name(n) => n.to_str(interner).to_string(),
        AstExpressionKind::Integer(v) => v.to_string(),
        AstExpressionKind::Binary { left, operator, right } => {
            let op = match operator {
                BinaryOperator::Add => "+",
                BinaryOperator::Subtract => "-",
                BinaryOperator::Multiply => "*",
                BinaryOperator::Divide => "/",
            };
            format!("({} {} {})", shape(left, interner), op, shape(right, interner))
        }
        AstExpressionKind::Block { statements, .. } => format!("{{{} statements}}", statements.len()),
        AstExpressionKind::Call { operand, arguments, .. } => {
            let args: Vec<String> = arguments.iter().map(|a| shape(a, interner)).collect();
            format!("{}({})", shape(operand, interner), args.join(", "))
        }
    }
}

fn parse_error(source: &str) -> ParseError {
    let mut interner = Interner::new();
    let filepath = InternedStr::intern(&mut interner, "test.lang");
    parse(filepath, source, &mut interner).unwrap_err()
}

fn loc(filepath: InternedStr, position: usize, line: usize, column: usize) -> Location {
    Location { filepath, position, line, column }
}

#[test]
fn multiplication_binds_tighter_than_addition() {
    let (e, interner) = expression("1 + 2 * 3");
    assert_eq!(shape(&e, &interner), "(1 + (2 * 3))");
}

#[test]
fn subtraction_is_left_associative() {
    let (e, interner) = expression("1 - 2 - 3");
    assert_eq!(shape(&e, &interner), "((1 - 2) - 3)");
}

#[test]
fn division_is_left_associative() {
    let (e, interner) = expression("8 / 4 / 2 * 3");
    assert_eq!(shape(&e, &interner), "(((8 / 4) / 2) * 3)");
}

#[test]
fn parentheses_override_precedence() {
    let (e, interner) = expression("(1 + 2) * 3");
    assert_eq!(shape(&e, &interner), "((1 + 2) * 3)");
}

#[test]
fn call_composes_with_operators() {
    let (e, interner) = expression("f(x) + 1");
    assert_eq!(shape(&e, &interner), "(f(x) + 1)");
    match &e.kind {
        AstExpressionKind::Binary { left, operator, .. } => {
            assert_eq!(*operator, BinaryOperator::Add);
            assert!(matches!(left.kind, AstExpressionKind::Call { .. }));
        }
        _ => panic!("expected a binary expression"),
    }
}

#[test]
fn call_with_several_arguments() {
    let (e, interner) = expression("g(1, a * 2, h())");
    assert_eq!(shape(&e, &interner), "g(1, (a * 2), h())");
}

#[test]
fn binary_node_is_located_at_its_operator() {
    let (e, _) = expression("10 + 2");
    assert_eq!(e.location.position, 3);
    assert_eq!(e.location.column, 4);
}

#[test]
fn block_with_let_and_return() {
    let source = "{ let x = 1; return x; }";
    let (e, interner) = expression(source);
    match &e.kind {
        AstExpressionKind::Block { statements, close_brace } => {
            assert_eq!(statements.len(), 2);
            match &statements[0].kind {
                AstKind::Let { pattern, value, .. } => {
                    let AstPatternKind::Let { name_token, typ } = &pattern.kind;
                    match name_token.kind {
                        TokenKind::Name(n) => assert_eq!(n.to_str(&interner), "x"),
                        _ => panic!("expected a name"),
                    }
                    assert!(typ.is_none());
                    assert_eq!(value.kind, AstExpressionKind::Integer(1));
                }
                _ => panic!("expected a let statement"),
            }
            assert!(matches!(statements[1].kind, AstKind::Return { .. }));
            let last = source.rfind('}').unwrap();
            assert_eq!(close_brace.position, last);
            assert_eq!(close_brace.line, 1);
            assert_eq!(close_brace.column, last + 1);
        }
        _ => panic!("expected a block"),
    }
    assert_eq!(e.location.position, 0);
}

#[test]
fn statement_is_located_at_its_first_token() {
    let (mut lexer, mut interner, filepath) = setup("   return 1;");
    let statement = parse_statement(&mut lexer, &mut interner).unwrap();
    assert_eq!(statement.location, loc(filepath, 3, 1, 4));
}

#[test]
fn function_with_parameters_and_return_type() {
    let mut interner = Interner::new();
    let filepath = InternedStr::intern(&mut interner, "test.lang");
    let asts = parse(filepath, "fn add(a: int, b) -> int { return a + b; }", &mut interner).unwrap();
    assert_eq!(asts.len(), 1);
    match &asts[0].kind {
        AstKind::Function { name, arguments, return_type, body } => {
            match name.kind {
                TokenKind::Name(n) => assert_eq!(n.to_str(&interner), "add"),
                _ => panic!("expected a name"),
            }
            assert_eq!(arguments.len(), 2);
            let AstPatternKind::Let { typ, .. } = &arguments[0].kind;
            assert!(typ.is_some());
            let AstPatternKind::Let { typ, .. } = &arguments[1].kind;
            assert!(typ.is_none());
            assert!(return_type.is_some());
            assert!(matches!(body.kind, AstExpressionKind::Block { .. }));
        }
        _ => panic!("expected a function"),
    }
    assert_eq!(asts[0].location, loc(filepath, 0, 1, 1));
}

#[test]
fn nested_functions_and_demo_program() {
    let source = "
fn foo(param) -> int {
    let x = 1 + 2 * 3;
    let y = x / 2;
    fn double(x) {
        return x * 2;
    }
    let z = double(y);
    return 10 / param - (z - 5);
}
";
    let mut interner = Interner::new();
    let filepath = InternedStr::intern(&mut interner, "test.lang");
    let asts = parse(filepath, source, &mut interner).unwrap();
    assert_eq!(asts.len(), 1);
    match &asts[0].kind {
        AstKind::Function { body, .. } => match &body.kind {
            AstExpressionKind::Block { statements, .. } => {
                assert_eq!(statements.len(), 5);
                assert!(matches!(statements[2].kind, AstKind::Function { .. }));
            }
            _ => panic!("expected a block"),
        },
        _ => panic!("expected a function"),
    }
}

#[test]
fn empty_source_parses_to_nothing() {
    let mut interner = Interner::new();
    let filepath = InternedStr::intern(&mut interner, "test.lang");
    assert_eq!(parse(filepath, "  \n ", &mut interner).unwrap(), Vec::<Ast>::new());
}

#[test]
fn missing_function_name_is_unexpected_token() {
    let e = parse_error("fn (");
    assert_eq!(e.kind, ParseErrorKind::UnexpectedToken(TokenKind::OpenParenthesis));
    assert_eq!(e.location.position, 3);
    assert_eq!(e.location.line, 1);
    assert_eq!(e.location.column, 4);
}

#[test]
fn global_let_is_rejected() {
    let e = parse_error("let x = 1;");
    assert_eq!(e.kind, ParseErrorKind::ExpectedGlobalItem(TokenKind::Let));
    assert_eq!(e.location.position, 0);
}

#[test]
fn missing_expression_is_reported() {
    let e = parse_error("fn f() { return ; }");
    assert_eq!(e.kind, ParseErrorKind::ExpectedExpression(TokenKind::Semicolon));
    assert_eq!(e.location.position, 16);
}

#[test]
fn bad_parameter_is_expected_pattern() {
    let e = parse_error("fn f(1) {}");
    assert_eq!(e.kind, ParseErrorKind::ExpectedPattern(TokenKind::Integer(1)));
    assert_eq!(e.location.column, 6);
}

#[test]
fn let_without_name_is_unexpected_token() {
    let e = parse_error("fn f() { let = 1; }");
    assert_eq!(e.kind, ParseErrorKind::UnexpectedToken(TokenKind::Equals));
}

#[test]
fn missing_semicolon_is_unexpected_token() {
    let e = parse_error("fn f() { 1 }");
    assert_eq!(e.kind, ParseErrorKind::UnexpectedToken(TokenKind::CloseBrace));
    assert_eq!(e.location.position, 11);
}

#[test]
fn unterminated_block_hits_end_of_file() {
    let e = parse_error("fn f() {");
    assert_eq!(e.kind, ParseErrorKind::ExpectedExpression(TokenKind::EOF));
    assert_eq!(e.location.position, 8);
}

#[test]
fn error_locations_count_lines() {
    let source = "fn f() {\n    let x = 1;\n    let y = $;\n}\n";
    let e = parse_error(source);
    assert_eq!(e.kind, ParseErrorKind::LexerError(LexerErrorKind::UnexpectedChar('$')));
    assert_eq!(e.location.position, source.find('$').unwrap());
    assert_eq!(e.location.line, 3);
    assert_eq!(e.location.column, 13);
}

#[test]
fn error_location_after_blank_lines() {
    let source = "\n\nfn f() {\n\n  return 1 +;\n}";
    let e = parse_error(source);
    assert_eq!(e.kind, ParseErrorKind::ExpectedExpression(TokenKind::Semicolon));
    assert_eq!(e.location.position, source.find(';').unwrap());
    assert_eq!(e.location.line, 5);
    assert_eq!(e.location.column, 13);
}

#[test]
fn lexer_error_inside_parse_keeps_its_location() {
    let source = "fn f() {\n  return 0b12;\n}";
    let e = parse_error(source);
    assert_eq!(e.kind, ParseErrorKind::LexerError(LexerErrorKind::DigitTooLarge { base: 2 }));
    assert_eq!(e.location.position, source.find('2').unwrap());
    assert_eq!(e.location.line, 2);
    assert_eq!(e.location.column, 13);
}

#[test]
fn parsing_twice_gives_equal_trees() {
    let source = "fn main(a, b: int) -> int { let c = a * (b + 1); return f(c, 2) - 3; }";
    let mut interner = Interner::new();
    let filepath = InternedStr::intern(&mut interner, "test.lang");
    let first = parse(filepath, source, &mut interner).unwrap();
    let second = parse(filepath, source, &mut interner).unwrap();
    assert_eq!(first, second);
    let mut other = Interner::new();
    let filepath = InternedStr::intern(&mut other, "test.lang");
    let third = parse(filepath, source, &mut other).unwrap();
    assert_eq!(first, third);
}

#[test]
fn operator_precedence_values() {
    assert_eq!(BinaryOperator::Multiply.precedence(), 2);
    assert_eq!(BinaryOperator::Divide.precedence(), 2);
    assert_eq!(BinaryOperator::Add.precedence(), 1);
    assert_eq!(BinaryOperator::Subtract.precedence(), 1);
    assert_eq!(BinaryOperator::from_token_kind(TokenKind::Slash), Some(BinaryOperator::Divide));
    assert_eq!(BinaryOperator::from_token_kind(TokenKind::Comma), None);
}

#[test]
fn try_parse_parses_when_names_fit() {
    let mut interner = Interner::new();
    let filepath = InternedStr::intern(&mut interner, "test.lang");
    let result = lang::parsing::try_parse(filepath, "fn f() { return 1; }", &mut interner);
    let asts = result.unwrap().unwrap();
    assert_eq!(asts.len(), 1);
    let error = lang::parsing::try_parse(filepath, "fn", &mut interner).unwrap().unwrap_err();
    assert_eq!(error.kind, ParseErrorKind::UnexpectedToken(TokenKind::EOF));
    assert_eq!(error.location, loc(filepath, 2, 1, 3));
}
