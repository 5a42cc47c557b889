use crate::chars::{
    byte_offset, collect_chars, column_of, digit_value, digit_value_exec, is_alnum, is_alpha_exec,
    is_digit, is_digit_exec, is_ident_char, is_ident_start, is_white_space, is_white_space_exec,
    lemma_byte_offset_mono, line_of, push_char, str_byte_len, utf8_width, utf8_width_exec,
};
use crate::interning::{intern_key, intern_names, InternedStr, Interner};
use vstd::prelude::*;

verus! {

/// A point in a named source: byte offset, and line and column counted from 1.
#[derive(Clone, Copy, PartialEq, Eq, Structural, Debug)]
pub struct Location {
    pub filepath: InternedStr,
    pub position: usize,
    pub line: usize,
    pub column: usize,
}

#[derive(Clone, Copy, PartialEq, Eq, Structural, Debug)]
pub enum TokenKind {
    EOF,
    Name(InternedStr),
    Integer(u64),
    Let,
    Fn,
    Return,
    OpenParenthesis,
    CloseParenthesis,
    OpenBrace,
    CloseBrace,
    Comma,
    Colon,
    Semicolon,
    Equals,
    Plus,
    Minus,
    Asterisk,
    Slash,
    RightArrow,
}

#[derive(Clone, Copy, PartialEq, Eq, Structural, Debug)]
pub struct Token {
    pub kind: TokenKind,
    pub location: Location,
}

#[derive(Clone, Copy, PartialEq, Eq, Structural, Debug)]
pub enum LexerErrorKind {
    UnexpectedChar(char),
    IntegerTooLarge,
    DigitTooLarge { base: u8 },
}

#[derive(Clone, Copy, PartialEq, Eq, Structural, Debug)]
pub struct LexerError {
    pub kind: LexerErrorKind,
    pub location: Location,
}

/// Where the scanner stands: the index of the next character and its location.
#[derive(Clone, Copy, PartialEq, Eq, Structural, Debug)]
pub struct Cursor {
    pub index: usize,
    pub location: Location,
}

/// The cursor is consistent with the source: its byte position is that of its
/// index, and every position of the source fits in `usize`.
pub open spec fn valid(src: Seq<char>, c: Cursor) -> bool {
    &&& c.index <= src.len()
    &&& src.len() <= usize::MAX
    &&& c.location.position == byte_offset(src, c.index as int)
    &&& byte_offset(src, src.len() as int) <= usize::MAX
    &&& c.location.line == line_of(src, c.index as int)
    &&& c.location.column == column_of(src, c.index as int)
    &&& c.location.line >= 1
    &&& c.location.column >= 1
}

/// Room is left in the interner for every name that the rest of the source can hold.
pub open spec fn room(src: Seq<char>, c: Cursor, names: Seq<Seq<char>>) -> bool {
    names.len() + (src.len() - c.index) <= u32::MAX
}

/// A character is left to read.
pub open spec fn more(src: Seq<char>, c: Cursor) -> bool {
    (c.index as int) < src.len() && c.index < usize::MAX
}

pub open spec fn sat_inc(x: usize) -> usize {
    if x < usize::MAX {
        (x + 1) as usize
    } else {
        x
    }
}

/// The cursor after reading the character under `c`: a newline starts a new line
/// at column 1, any other character moves one column on.
pub open spec fn step(src: Seq<char>, c: Cursor) -> Cursor {
    let ch = src[c.index as int];
    Cursor {
        index: (c.index + 1) as usize,
        location: Location {
            filepath: c.location.filepath,
            position: (c.location.position + utf8_width(ch)) as usize,
            line: if ch == '\n' {
                sat_inc(c.location.line)
            } else {
                c.location.line
            },
            column: if ch == '\n' {
                1
            } else {
                sat_inc(c.location.column)
            },
        },
    }
}

/// The cursor after reading characters until index `e`.
pub open spec fn advance_to(src: Seq<char>, c: Cursor, e: int) -> Cursor
    decreases src.len() - c.index,
{
    if more(src, c) && c.index < e {
        advance_to(src, step(src, c), e)
    } else {
        c
    }
}

/// The index where the identifier characters that start at `i` end.
pub open spec fn ident_end(src: Seq<char>, i: int) -> int
    decreases src.len() - i,
{
    if 0 <= i < src.len() && is_ident_char(src[i]) {
        ident_end(src, i + 1)
    } else {
        i
    }
}

pub open spec fn punctuation(c: char) -> Option<TokenKind> {
    if c == '(' {
        Some(TokenKind::OpenParenthesis)
    } else if c == ')' {
        Some(TokenKind::CloseParenthesis)
    } else if c == '{' {
        Some(TokenKind::OpenBrace)
    } else if c == '}' {
        Some(TokenKind::CloseBrace)
    } else if c == ',' {
        Some(TokenKind::Comma)
    } else if c == ':' {
        Some(TokenKind::Colon)
    } else if c == ';' {
        Some(TokenKind::Semicolon)
    } else if c == '=' {
        Some(TokenKind::Equals)
    } else if c == '+' {
        Some(TokenKind::Plus)
    } else if c == '*' {
        Some(TokenKind::Asterisk)
    } else if c == '/' {
        Some(TokenKind::Slash)
    } else {
        None
    }
}

pub open spec fn keyword(text: Seq<char>) -> Option<TokenKind> {
    if text =~= seq!['l', 'e', 't'] {
        Some(TokenKind::Let)
    } else if text =~= seq!['f', 'n'] {
        Some(TokenKind::Fn)
    } else if text =~= seq!['r', 'e', 't', 'u', 'r', 'n'] {
        Some(TokenKind::Return)
    } else {
        None
    }
}

/// The base that the character after a leading `0` selects, if any.
pub open spec fn base_prefix(c: char) -> Option<u32> {
    if c == 'x' {
        Some(16)
    } else if c == 'd' {
        Some(10)
    } else if c == 'o' {
        Some(8)
    } else if c == 'b' {
        Some(2)
    } else {
        None
    }
}

/// Reads the alphanumeric characters from `c` as digits of `base`, onto `value`.
/// A character that is no digit of the base fails where it stands; a value past
/// `u64::MAX` fails at `start`, the literal's first character.
pub open spec fn scan_digits(src: Seq<char>, c: Cursor, base: u32, value: u64, start: Location) -> (
    Result<u64, LexerError>,
    Cursor,
)
    decreases src.len() - c.index,
{
    if more(src, c) && is_alnum(src[c.index as int]) {
        match digit_value(src[c.index as int], base) {
            None => (
                Err(
                    LexerError {
                        kind: LexerErrorKind::DigitTooLarge { base: base as u8 },
                        location: c.location,
                    },
                ),
                c,
            ),
            Some(d) => {
                let v = value * base + d;
                if v > u64::MAX {
                    (
                        Err(LexerError { kind: LexerErrorKind::IntegerTooLarge, location: start }),
                        step(src, c),
                    )
                } else {
                    scan_digits(src, step(src, c), base, v as u64, start)
                }
            },
        }
    } else {
        (Ok(value), c)
    }
}

/// The next token from `c`, the cursor after it, and the interned strings after
/// it, given those interned before.
pub open spec fn scan(src: Seq<char>, c: Cursor, names: Seq<Seq<char>>) -> (
    Result<Token, LexerError>,
    Cursor,
    Seq<Seq<char>>,
)
    decreases src.len() - c.index,
{
    if !more(src, c) {
        (Ok(Token { kind: TokenKind::EOF, location: c.location }), c, names)
    } else {
        let ch = src[c.index as int];
        let c1 = step(src, c);
        if punctuation(ch) is Some {
            (Ok(Token { kind: punctuation(ch).unwrap(), location: c.location }), c1, names)
        } else if ch == '-' {
            if more(src, c1) && src[c1.index as int] == '>' {
                (
                    Ok(Token { kind: TokenKind::RightArrow, location: c.location }),
                    step(src, c1),
                    names,
                )
            } else {
                (Ok(Token { kind: TokenKind::Minus, location: c.location }), c1, names)
            }
        } else if is_ident_start(ch) {
            let e = ident_end(src, c1.index as int);
            let text = src.subrange(c.index as int, e);
            let c2 = advance_to(src, c1, e);
            match keyword(text) {
                Some(k) => (Ok(Token { kind: k, location: c.location }), c2, names),
                None => (
                    Ok(
                        Token {
                            kind: TokenKind::Name(
                                InternedStr { index: intern_key(names, text) as u32 },
                            ),
                            location: c.location,
                        },
                    ),
                    c2,
                    intern_names(names, text),
                ),
            }
        } else if is_digit(ch) {
            let prefix = if ch == '0' && more(src, c1) {
                base_prefix(src[c1.index as int])
            } else {
                None
            };
            let base: u32 = match prefix {
                Some(b) => b,
                None => 10,
            };
            let c2 = if prefix is Some {
                step(src, c1)
            } else {
                c1
            };
            let value = digit_value(ch, 10).unwrap() as u64;
            let (r, c3) = scan_digits(src, c2, base, value, c.location);
            match r {
                Ok(v) => (Ok(Token { kind: TokenKind::Integer(v), location: c.location }), c3, names),
                Err(e) => (Err(e), c3, names),
            }
        } else if is_white_space(ch) {
            scan(src, c1, names)
        } else {
            (
                Err(LexerError { kind: LexerErrorKind::UnexpectedChar(ch), location: c.location }),
                c1,
                names,
            )
        }
    }
}

/// Reading one character keeps the cursor consistent.
proof fn lemma_step_valid(src: Seq<char>, c: Cursor)
    requires
        valid(src, c),
        (c.index as int) < src.len(),
    ensures
        valid(src, step(src, c)),
        step(src, c).location.position == c.location.position + utf8_width(src[c.index as int]),
{
    lemma_byte_offset_mono(src, c.index + 1, src.len() as int);
}

/// The character under the cursor.
fn char_at(chars: &Vec<char>, c: &Cursor) -> (r: Option<char>)
    requires
        valid(chars@, *c),
    ensures
        more(chars@, *c) ==> r == Some(chars@[c.index as int]),
        !more(chars@, *c) ==> r is None,
{
    if c.index < chars.len() {
        Some(chars[c.index])
    } else {
        None
    }
}

/// Reads the character under the cursor and moves past it.
fn read_char(chars: &Vec<char>, c: &mut Cursor) -> (r: Option<char>)
    requires
        valid(chars@, *old(c)),
    ensures
        valid(chars@, *final(c)),
        more(chars@, *old(c)) ==> r == Some(chars@[old(c).index as int]) && *final(c) == step(
            chars@,
            *old(c),
        ),
        !more(chars@, *old(c)) ==> r is None && *final(c) == *old(c),
{
    if c.index < chars.len() {
        let ch = chars[c.index];
        proof {
            lemma_step_valid(chars@, *c);
        }
        let w = utf8_width_exec(ch);
        c.index = c.index + 1;
        c.location.position = c.location.position + w;
        if c.location.column < usize::MAX {
            c.location.column = c.location.column + 1;
        }
        if ch == '\n' {
            if c.location.line < usize::MAX {
                c.location.line = c.location.line + 1;
            }
            c.location.column = 1;
        }
        Some(ch)
    } else {
        None
    }
}

pub proof fn lemma_ident_end(src: Seq<char>, i: int)
    requires
        0 <= i <= src.len(),
    ensures
        i <= ident_end(src, i) <= src.len(),
    decreases src.len() - i,
{
    if i < src.len() && is_ident_char(src[i]) {
        lemma_ident_end(src, i + 1);
    }
}

fn punctuation_exec(c: char) -> (r: Option<TokenKind>)
    ensures
        r == punctuation(c),
{
    if c == '(' {
        Some(TokenKind::OpenParenthesis)
    } else if c == ')' {
        Some(TokenKind::CloseParenthesis)
    } else if c == '{' {
        Some(TokenKind::OpenBrace)
    } else if c == '}' {
        Some(TokenKind::CloseBrace)
    } else if c == ',' {
        Some(TokenKind::Comma)
    } else if c == ':' {
        Some(TokenKind::Colon)
    } else if c == ';' {
        Some(TokenKind::Semicolon)
    } else if c == '=' {
        Some(TokenKind::Equals)
    } else if c == '+' {
        Some(TokenKind::Plus)
    } else if c == '*' {
        Some(TokenKind::Asterisk)
    } else if c == '/' {
        Some(TokenKind::Slash)
    } else {
        None
    }
}

fn base_prefix_exec(c: char) -> (r: Option<u32>)
    ensures
        r == base_prefix(c),
{
    if c == 'x' {
        Some(16)
    } else if c == 'd' {
        Some(10)
    } else if c == 'o' {
        Some(8)
    } else if c == 'b' {
        Some(2)
    } else {
        None
    }
}

fn is_ident_char_exec(c: char) -> (r: bool)
    ensures
        r == is_ident_char(c),
{
    is_alpha_exec(c) || is_digit_exec(c) || c == '_'
}

/// The keyword spelled by `chars[s..e]`, if any.
fn keyword_exec(chars: &Vec<char>, s: usize, e: usize) -> (r: Option<TokenKind>)
    requires
        s <= e <= chars@.len(),
    ensures
        r == keyword(chars@.subrange(s as int, e as int)),
{
    let ghost text = chars@.subrange(s as int, e as int);
    let n = e - s;
    if n == 3 && chars[s] == 'l' && chars[s + 1] == 'e' && chars[s + 2] == 't' {
        assert(text =~= seq!['l', 'e', 't']);
        Some(TokenKind::Let)
    } else if n == 2 && chars[s] == 'f' && chars[s + 1] == 'n' {
        assert(text =~= seq!['f', 'n']);
        Some(TokenKind::Fn)
    } else if n == 6 && chars[s] == 'r' && chars[s + 1] == 'e' && chars[s + 2] == 't' && chars[s
        + 3] == 'u' && chars[s + 4] == 'r' && chars[s + 5] == 'n' {
        assert(text =~= seq!['r', 'e', 't', 'u', 'r', 'n']);
        Some(TokenKind::Return)
    } else {

        None
    }
}

/// The text of `chars[s..e]`.
fn text_of(chars: &Vec<char>, s: usize, e: usize) -> (r: String)
    requires
        s <= e <= chars@.len(),
    ensures
        r@ == chars@.subrange(s as int, e as int),
{
    let mut text = String::new();
    let mut k: usize = s;
    while k < e
        invariant
            s <= k <= e <= chars@.len(),
            text@ == chars@.subrange(s as int, k as int),
        decreases e - k,
    {
        push_char(&mut text, chars[k]);
        k = k + 1;
        assert(text@ =~= chars@.subrange(s as int, k as int));
    }
    text
}

/// Reads the digits of an integer literal from `c` onto `value`, as
/// `scan_digits` says.
fn lex_digits(chars: &Vec<char>, c: &mut Cursor, base: u32, value: u64, start: Location) -> (r:
    Result<u64, LexerError>)
    requires
        valid(chars@, *old(c)),
        2 <= base <= 16,
    ensures
        valid(chars@, *final(c)),
        (r, *final(c)) == scan_digits(chars@, *old(c), base, value, start),
        final(c).index >= old(c).index,
{
    let ghost c0 = *c;
    let mut acc = value;
    loop
        invariant
            valid(chars@, *c),
            c0 == *old(c),
            2 <= base <= 16,
            scan_digits(chars@, c0, base, value, start) == scan_digits(chars@, *c, base, acc, start),
            c.index >= c0.index,
        decreases chars@.len() - c.index,
    {
        let d = match char_at(chars, c) {
            Some(d) => d,
            None => return Ok(acc),
        };
        if !(is_alpha_exec(d) || is_digit_exec(d)) {
            return Ok(acc);
        }
        let dv = match digit_value_exec(d, base) {
            Some(dv) => dv,
            None => {
                return Err(
                    LexerError {
                        kind: LexerErrorKind::DigitTooLarge { base: base as u8 },
                        location: c.location,
                    },
                );
            },
        };
        read_char(chars, c);
        acc = match acc.checked_mul(base as u64) {
            Some(m) => match m.checked_add(dv as u64) {
                Some(v) => v,
                None => {
                    return Err(LexerError { kind: LexerErrorKind::IntegerTooLarge, location: start });
                },
            },
            None => {
                proof {
                    assert(acc * base + dv > u64::MAX) by (nonlinear_arith)
                        requires
                            acc * base > u64::MAX,
                            dv >= 0,
                    ;
                }
                return Err(LexerError { kind: LexerErrorKind::IntegerTooLarge, location: start });
            },
        };
    }
}

/// Scans the next token from `c`, as `scan` says, and moves `c` past it. For a
/// name it also hands back the name's text, which is still to be interned.
fn lex(chars: &Vec<char>, c: &mut Cursor, interner: &Interner) -> (r: (
    Result<Token, LexerError>,
    Option<String>,
))
    requires
        valid(chars@, *old(c)),
        interner.wf(),
        room(chars@, *old(c), interner.strings()),
    ensures
        valid(chars@, *final(c)),
        r.0 == scan(chars@, *old(c), interner.strings()).0,
        *final(c) == scan(chars@, *old(c), interner.strings()).1,
        scan(chars@, *old(c), interner.strings()).2 == match r.1 {
            Some(t) => intern_names(interner.strings(), t@),
            None => interner.strings(),
        },
        r.1 is Some ==> old(c).index < final(c).index,
        old(c).index <= final(c).index,
        (r.0 matches Ok(t) && !(t.kind is EOF)) ==> old(c).index < final(c).index,
{
    let ghost c0 = *c;
    let ghost names = interner.strings();
    loop
        invariant
            valid(chars@, *c),
            c0 == *old(c),
            interner.wf(),
            names == interner.strings(),
            room(chars@, *c, names),
            scan(chars@, c0, names) == scan(chars@, *c, names),
            c0.index <= c.index,
        decreases chars@.len() - c.index,
    {
        let ghost cs = *c;
        let start_index = c.index;
        let start = c.location;
        let ch = match read_char(chars, c) {
            Some(ch) => ch,
            None => {
                return (Ok(Token { kind: TokenKind::EOF, location: start }), None);
            },
        };
        if let Some(k) = punctuation_exec(ch) {
            return (Ok(Token { kind: k, location: start }), None);
        } else if ch == '-' {
            if let Some('>') = char_at(chars, c) {
                read_char(chars, c);
                return (Ok(Token { kind: TokenKind::RightArrow, location: start }), None);
            }
            return (Ok(Token { kind: TokenKind::Minus, location: start }), None);
        } else if is_alpha_exec(ch) || ch == '_' {
            let ghost c1 = *c;
            let ghost e = ident_end(chars@, c1.index as int);
            proof {
                lemma_ident_end(chars@, c1.index as int);
            }
            while c.index < chars.len() && is_ident_char_exec(chars[c.index])
                invariant
                    valid(chars@, *c),
                    c1.index <= c.index <= e,
                    ident_end(chars@, c.index as int) == e,
                    advance_to(chars@, c1, e) == advance_to(chars@, *c, e),
                decreases chars@.len() - c.index,
            {
                proof {
                    lemma_ident_end(chars@, c.index + 1);
                }
                read_char(chars, c);
            }
            let kw = keyword_exec(chars, start_index, c.index);
            if let Some(k) = kw {
                return (Ok(Token { kind: k, location: start }), None);
            }
            let text = text_of(chars, start_index, c.index);
            let symbol = match interner.get(text.as_str()) {
                Some(k) => k,
                None => InternedStr { index: interner.len() as u32 },
            };
            return (Ok(Token { kind: TokenKind::Name(symbol), location: start }), Some(text));
        } else if is_digit_exec(ch) {
            let mut base: u32 = 10;
            if ch == '0' {
                if let Some(n) = char_at(chars, c) {
                    if let Some(b) = base_prefix_exec(n) {
                        read_char(chars, c);
                        base = b;
                    }
                }
            }
            let value = (ch as u32 - '0' as u32) as u64;
            return match lex_digits(chars, c, base, value, start) {
                Ok(v) => (Ok(Token { kind: TokenKind::Integer(v), location: start }), None),
                Err(e) => (Err(e), None),
            };
        } else if is_white_space_exec(ch) {
            continue ;
        } else {
            return (
                Err(LexerError { kind: LexerErrorKind::UnexpectedChar(ch), location: start }),
                None,
            );
        }
    }
}

/// The location of the character at index `i` of `src`, a source named `filepath`.
pub open spec fn location_at(src: Seq<char>, filepath: InternedStr, i: int) -> Location {
    Location {
        filepath,
        position: byte_offset(src, i) as usize,
        line: line_of(src, i) as usize,
        column: column_of(src, i) as usize,
    }
}

/// The character at index `i` is the one that the error `e` speaks of.
pub open spec fn blames(src: Seq<char>, i: int, e: LexerErrorKind) -> bool {
    match e {
        LexerErrorKind::UnexpectedChar(ch) => src[i] == ch,
        LexerErrorKind::DigitTooLarge { base } => is_alnum(src[i]) && digit_value(src[i], base as u32) is None,
        LexerErrorKind::IntegerTooLarge => is_digit(src[i]),
    }
}

proof fn lemma_scan_digits_error(src: Seq<char>, c: Cursor, base: u32, value: u64, start: Location)
    requires
        valid(src, c),
        2 <= base <= 16,
    ensures
        scan_digits(src, c, base, value, start).0 matches Err(e) ==> (e == LexerError {
            kind: LexerErrorKind::IntegerTooLarge,
            location: start,
        } || (exists|i: int|
            c.index <= i < src.len() && e.location == location_at(src, c.location.filepath, i)
                && blames(src, i, e.kind))),
    decreases src.len() - c.index,
{
    if more(src, c) && is_alnum(src[c.index as int]) {
        if let Some(d) = digit_value(src[c.index as int], base) {
            lemma_step_valid(src, c);
            lemma_scan_digits_error(src, step(src, c), base, (value * base + d) as u64, start);
        } else {
            assert(c.location == location_at(src, c.location.filepath, c.index as int));
            assert(blames(src, c.index as int, LexerErrorKind::DigitTooLarge { base: base as u8 }));
        }
    }
}

/// Every error that scanning reports stands at the location (byte offset, line
/// and column) of a character of the source that it speaks of: the unexpected
/// character, the digit too large for its base, or the first digit of a literal
/// too large for `u64`.
pub proof fn lemma_scan_error_location(src: Seq<char>, c: Cursor, names: Seq<Seq<char>>)
    requires
        valid(src, c),
    ensures
        scan(src, c, names).0 matches Err(e) ==> exists|i: int|
            c.index <= i < src.len() && e.location == location_at(src, c.location.filepath, i)
                && blames(src, i, e.kind),
    decreases src.len() - c.index,
{
    if more(src, c) {
        let ch = src[c.index as int];
        let c1 = step(src, c);
        lemma_step_valid(src, c);
        assert(c.location == location_at(src, c.location.filepath, c.index as int));
        if punctuation(ch) is Some || ch == '-' || is_ident_start(ch) {
        } else if is_digit(ch) {
            let prefix = if ch == '0' && more(src, c1) {
                base_prefix(src[c1.index as int])
            } else {
                None
            };
            let base: u32 = match prefix {
                Some(b) => b,
                None => 10,
            };
            let c2 = if prefix is Some {
                lemma_step_valid(src, c1);
                step(src, c1)
            } else {
                c1
            };
            let value = digit_value(ch, 10).unwrap() as u64;
            lemma_scan_digits_error(src, c2, base, value, c.location);
            assert(blames(src, c.index as int, LexerErrorKind::IntegerTooLarge));
        } else if is_white_space(ch) {
            lemma_scan_error_location(src, c1, names);
        } else {
            assert(blames(src, c.index as int, LexerErrorKind::UnexpectedChar(ch)));
        }
    }
}

/// The scanner: a source held as characters, and a cursor into it.
pub struct Lexer {
    chars: Vec<char>,
    cursor: Cursor,
}

impl Lexer {
    /// The characters of the source.
    pub closed spec fn source(&self) -> Seq<char> {
        self.chars@
    }

    pub closed spec fn cursor(&self) -> Cursor {
        self.cursor
    }

    pub open spec fn wf(&self) -> bool {
        valid(self.source(), self.cursor())
    }

    /// A scanner at the start of `source`: byte 0, line 1, column 1.
    pub fn new(filepath: InternedStr, source: &str) -> (r: Lexer)
        ensures
            r.wf(),
            r.source() == source@,
            r.cursor() == (Cursor {
                index: 0,
                location: Location { filepath, position: 0, line: 1, column: 1 },
            }),
    {
        let chars = collect_chars(source);
        let _ = str_byte_len(source);
        let _ = chars.len();
        Lexer {
            chars,
            cursor: Cursor {
                index: 0,
                location: Location { filepath, position: 0, line: 1, column: 1 },
            },
        }
    }

    pub fn location(&self) -> (r: Location)
        ensures
            r == self.cursor().location,
    {
        self.cursor.location
    }

    /// The next character, without moving.
    pub fn peek_char(&self) -> (r: Option<char>)
        requires
            self.wf(),
        ensures
            more(self.source(), self.cursor()) ==> r == Some(self.source()[self.cursor().index as int]),
            !more(self.source(), self.cursor()) ==> r is None,
    {
        char_at(&self.chars, &self.cursor)
    }

    /// Reads the next character and moves past it.
    pub fn next_char(&mut self) -> (r: Option<char>)
        requires
            old(self).wf(),
        ensures
            final(self).wf(),
            final(self).source() == old(self).source(),
            more(old(self).source(), old(self).cursor()) ==> r == Some(
                old(self).source()[old(self).cursor().index as int],
            ) && final(self).cursor() == step(old(self).source(), old(self).cursor()),
            !more(old(self).source(), old(self).cursor()) ==> r is None && final(self).cursor()
                == old(self).cursor(),
    {
        read_char(&self.chars, &mut self.cursor)
    }

    /// The token that `next_token` would return now, computed without moving and
    /// without interning.
    pub fn peek_token(&self, interner: &Interner) -> (r: Result<Token, LexerError>)
        requires
            self.wf(),
            interner.wf(),
            room(self.source(), self.cursor(), interner.strings()),
        ensures
            r == scan(self.source(), self.cursor(), interner.strings()).0,
    {
        let mut c = self.cursor;
        let (r, _) = lex(&self.chars, &mut c, interner);
        r
    }

    /// Scans the next token and moves past it, interning a name's text. At the end
    /// of the source it keeps returning `EOF`.
    pub fn next_token(&mut self, interner: &mut Interner) -> (r: Result<Token, LexerError>)
        requires
            old(self).wf(),
            old(interner).wf(),
            room(old(self).source(), old(self).cursor(), old(interner).strings()),
        ensures
            (r, final(self).cursor(), final(interner).strings()) == scan(
                old(self).source(),
                old(self).cursor(),
                old(interner).strings(),
            ),
            final(self).source() == old(self).source(),
            final(self).wf(),
            final(interner).wf(),
            room(final(self).source(), final(self).cursor(), final(interner).strings()),
            old(self).cursor().index <= final(self).cursor().index,
            (r matches Ok(t) && !(t.kind is EOF)) ==> old(self).cursor().index < final(self).cursor().index,
    {
        let (r, text) = lex(&self.chars, &mut self.cursor, interner);
        if let Some(t) = text {
            InternedStr::intern(interner, t.as_str());
        }
        r
    }
}

} // verus!
