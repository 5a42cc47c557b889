use lang::lexer::{Lexer, LexerError, LexerErrorKind, Location, Token, TokenKind};
use lang::{InternedStr, Interner};

fn setup(source: &str) -> (Lexer, Interner, InternedStr) {
    let mut interner = Interner::new();
    let filepath = InternedStr::intern(&mut interner, "test.lang");
    (Lexer::new(filepath, source), interner, filepath)
}

fn kinds(source: &str) -> Vec<TokenKind> {
    let (mut lexer, mut interner, _) = setup(source);
    let mut out = Vec::new();
    loop {
        let token = lexer.next_token(&mut interner).unwrap();
        if token.kind == TokenKind::EOF {
            return out;
        }
        out.push(token.kind);
    }
}

fn integer(source: &str) -> Result<u64, LexerError> {
    let (mut lexer, mut interner, _) = setup(source);
    lexer.next_token(&mut interner).map(|t| match t.kind {
        TokenKind::Integer(v) => v,
        other => panic!("expected an integer, got {:?}", other),
    })
}

fn loc(filepath: InternedStr, position: usize, line: usize, column: usize) -> Location {
    Location { filepath, position, line, column }
}

#[test]
fn decimal_literal() {
    assert_eq!(integer("42").unwrap(), 42);
    assert_eq!(integer("007").unwrap(), 7);
    assert_eq!(integer("0").unwrap(), 0);
}

#[test]
fn prefixed_literals() {
    assert_eq!(integer("0x1F").unwrap(), 31);
    assert_eq!(integer("0xff").unwrap(), 255);
    assert_eq!(integer("0d99").unwrap(), 99);
    assert_eq!(integer("0o17").unwrap(), 15);
    assert_eq!(integer("0b101").unwrap(), 5);
    assert_eq!(integer("0x").unwrap(), 0);
}

#[test]
fn largest_literals() {
    assert_eq!(integer("18446744073709551615").unwrap(), u64::MAX);
    assert_eq!(integer("0xffffffffffffffff").unwrap(), u64::MAX);
    assert_eq!(
        integer("0b1111111111111111111111111111111111111111111111111111111111111111").unwrap(),
        u64::MAX
    );
}

#[test]
fn overflowing_literal_fails_at_its_start() {
    let (mut lexer, mut interner, filepath) = setup("  18446744073709551616");
    let e = lexer.next_token(&mut interner).unwrap_err();
    assert_eq!(e.kind, LexerErrorKind::IntegerTooLarge);
    assert_eq!(e.location, loc(filepath, 2, 1, 3));
    let e = integer("0x10000000000000000").unwrap_err();
    assert_eq!(e.kind, LexerErrorKind::IntegerTooLarge);
    assert_eq!(e.location.position, 0);
}

#[test]
fn digit_too_large_for_base() {
    let (mut lexer, mut interner, filepath) = setup("0b102");
    let e = lexer.next_token(&mut interner).unwrap_err();
    assert_eq!(e.kind, LexerErrorKind::DigitTooLarge { base: 2 });
    assert_eq!(e.location, loc(filepath, 4, 1, 5));
    assert_eq!(integer("0o8").unwrap_err().kind, LexerErrorKind::DigitTooLarge { base: 8 });
    assert_eq!(integer("0xg").unwrap_err().kind, LexerErrorKind::DigitTooLarge { base: 16 });
    assert_eq!(integer("12a").unwrap_err().kind, LexerErrorKind::DigitTooLarge { base: 10 });
}

#[test]
fn arrow_and_minus() {
    assert_eq!(kinds("->"), vec![TokenKind::RightArrow]);
    let (mut lexer, mut interner, _) = setup("- >");
    assert_eq!(lexer.next_token(&mut interner).unwrap().kind, TokenKind::Minus);
    assert_eq!(
        lexer.next_token(&mut interner).unwrap_err().kind,
        LexerErrorKind::UnexpectedChar('>')
    );
    assert_eq!(kinds("a-b").len(), 3);
    assert_eq!(kinds("a-b")[1], TokenKind::Minus);
    assert_eq!(kinds("-->"), vec![TokenKind::Minus, TokenKind::RightArrow]);
}

#[test]
fn punctuation_and_keywords() {
    assert_eq!(
        kinds("( ) { } , : ; = + - * / -> let fn return"),
        vec![
            TokenKind::OpenParenthesis,
            TokenKind::CloseParenthesis,
            TokenKind::OpenBrace,
            TokenKind::CloseBrace,
            TokenKind::Comma,
            TokenKind::Colon,
            TokenKind::Semicolon,
            TokenKind::Equals,
            TokenKind::Plus,
            TokenKind::Minus,
            TokenKind::Asterisk,
            TokenKind::Slash,
            TokenKind::RightArrow,
            TokenKind::Let,
            TokenKind::Fn,
            TokenKind::Return,
        ]
    );
}

#[test]
fn names_are_interned() {
    let (mut lexer, mut interner, _) = setup("foo _bar foo letter fn2");
    let mut names = Vec::new();
    loop {
        match lexer.next_token(&mut interner).unwrap().kind {
            TokenKind::EOF => break,
            TokenKind::Name(n) => names.push(n),
            other => panic!("expected a name, got {:?}", other),
        }
    }
    assert_eq!(names.len(), 5);
    assert_eq!(names[0], names[2]);
    assert_ne!(names[0], names[1]);
    assert_eq!(names[0].to_str(&interner), "foo");
    assert_eq!(names[1].to_str(&interner), "_bar");
    assert_eq!(names[3].to_str(&interner), "letter");
    assert_eq!(names[4].to_str(&interner), "fn2");
}

#[test]
fn interning_gives_one_identity_per_text() {
    let mut interner = Interner::new();
    let a = InternedStr::intern(&mut interner, "alpha");
    let b = InternedStr::intern(&mut interner, "beta");
    let a2 = InternedStr::intern(&mut interner, "alpha");
    assert_eq!(a, a2);
    assert_ne!(a, b);
    assert_eq!(interner.len(), 2);
    assert_eq!(b.to_str(&interner), "beta");
    assert_eq!(interner.get("beta"), Some(b));
    assert_eq!(interner.get("gamma"), None);
}

#[test]
fn unexpected_character() {
    let (mut lexer, mut interner, filepath) = setup("a\n  #");
    assert!(matches!(lexer.next_token(&mut interner).unwrap().kind, TokenKind::Name(_)));
    let e = lexer.next_token(&mut interner).unwrap_err();
    assert_eq!(e.kind, LexerErrorKind::UnexpectedChar('#'));
    assert_eq!(e.location, loc(filepath, 4, 2, 3));
}

#[test]
fn end_of_file_repeats() {
    let (mut lexer, mut interner, filepath) = setup("x ");
    lexer.next_token(&mut interner).unwrap();
    for _ in 0..3 {
        let t = lexer.next_token(&mut interner).unwrap();
        assert_eq!(t, Token { kind: TokenKind::EOF, location: loc(filepath, 2, 1, 3) });
    }
}

#[test]
fn peek_token_does_not_move() {
    let (mut lexer, mut interner, _) = setup("  fresh_name + 1");
    let before = lexer.location();
    let p1 = lexer.peek_token(&interner).unwrap();
    let p2 = lexer.peek_token(&interner).unwrap();
    assert_eq!(lexer.location(), before);
    assert_eq!(interner.len(), 1);
    let n = lexer.next_token(&mut interner).unwrap();
    assert_eq!(p1, n);
    assert_eq!(p2, n);
    let p3 = lexer.peek_token(&interner).unwrap();
    assert_eq!(p3, lexer.next_token(&mut interner).unwrap());
}

#[test]
fn peek_and_next_char() {
    let (mut lexer, _, filepath) = setup("é\nb");
    assert_eq!(lexer.peek_char(), Some('é'));
    assert_eq!(lexer.peek_char(), Some('é'));
    assert_eq!(lexer.next_char(), Some('é'));
    assert_eq!(lexer.location(), loc(filepath, 2, 1, 2));
    assert_eq!(lexer.next_char(), Some('\n'));
    assert_eq!(lexer.location(), loc(filepath, 3, 2, 1));
    assert_eq!(lexer.next_char(), Some('b'));
    assert_eq!(lexer.next_char(), None);
    assert_eq!(lexer.peek_char(), None);
    assert_eq!(lexer.location(), loc(filepath, 4, 2, 2));
}

#[test]
fn byte_positions_follow_utf8() {
    let (mut lexer, mut interner, filepath) = setup("\u{3000}é\u{a0}x");
    let e = lexer.next_token(&mut interner).unwrap_err();
    assert_eq!(e.kind, LexerErrorKind::UnexpectedChar('é'));
    assert_eq!(e.location, loc(filepath, 3, 1, 2));
    let t = lexer.next_token(&mut interner).unwrap();
    assert!(matches!(t.kind, TokenKind::Name(_)));
    assert_eq!(t.location, loc(filepath, 7, 1, 4));
}

#[test]
fn scanning_twice_gives_equal_tokens() {
    let source = "fn f(x) -> int { return 0x2A * x; }";
    let (mut first, mut interner, filepath) = setup(source);
    let mut second = Lexer::new(filepath, source);
    loop {
        let a = first.next_token(&mut interner).unwrap();
        let b = second.next_token(&mut interner).unwrap();
        assert_eq!(a, b);
        if a.kind == TokenKind::EOF {
            break;
        }
    }
}
