use crate::ast::{
    expr_model, expr_models, lemma_block_model, lemma_call_model, lemma_function_model,
    operator_of, pattern_model, pattern_models, precedence_of, stmt_model, stmt_models, Ast,
    AstExpression, AstExpressionKind, AstKind, AstPattern, AstPatternKind, BinaryOperator,
    ExprModel, PatternModel, StmtModel,
};
use crate::interning::{InternedStr, Interner};
use crate::lexer::{
    room, scan, Cursor, Lexer, LexerError, LexerErrorKind, Location, Token, TokenKind,
};
use vstd::prelude::*;
use vstd::string::StrSliceExecFns;

verus! {

#[derive(Clone, Copy, PartialEq, Eq, Structural, Debug)]
pub enum ParseErrorKind {
    LexerError(LexerErrorKind),
    UnexpectedToken(TokenKind),
    ExpectedGlobalItem(TokenKind),
    ExpectedExpression(TokenKind),
    ExpectedPattern(TokenKind),
}

#[derive(Clone, Copy, PartialEq, Eq, Structural, Debug)]
pub struct ParseError {
    pub kind: ParseErrorKind,
    pub location: Location,
}

pub open spec fn from_lexer_error(e: LexerError) -> ParseError {
    ParseError { kind: ParseErrorKind::LexerError(e.kind), location: e.location }
}

impl ParseError {
    pub fn from(error: LexerError) -> (r: ParseError)
        ensures
            r == from_lexer_error(error),
    {
        ParseError { kind: ParseErrorKind::LexerError(error.kind), location: error.location }
    }
}

/// What parsing reads: the scanner's cursor and the strings interned so far.
pub struct PState {
    pub cur: Cursor,
    pub names: Seq<Seq<char>>,
}

/// The number of characters left to read.
pub open spec fn rem(src: Seq<char>, s: PState) -> nat {
    if s.cur.index <= src.len() {
        (src.len() - s.cur.index) as nat
    } else {
        0
    }
}

/// `s2` stands past `s`.
pub open spec fn progressed(src: Seq<char>, s: PState, s2: PState) -> bool {
    rem(src, s2) < rem(src, s)
}

/// The outcome of a step that made no progress; never reached from a valid
/// state, as the proofs of the parser show.
pub open spec fn stuck<T>(s: PState) -> (Result<T, ParseError>, PState) {
    (
        Err(
            ParseError {
                kind: ParseErrorKind::UnexpectedToken(TokenKind::EOF),
                location: s.cur.location,
            },
        ),
        s,
    )
}

/// The next token, and the state after it.
pub open spec fn next(src: Seq<char>, s: PState) -> (Result<Token, ParseError>, PState) {
    let (r, c, n) = scan(src, s.cur, s.names);
    (
        match r {
            Ok(t) => Ok(t),
            Err(e) => Err(from_lexer_error(e)),
        },
        PState { cur: c, names: n },
    )
}

/// The next token, read without moving.
pub open spec fn peek(src: Seq<char>, s: PState) -> Result<Token, ParseError> {
    next(src, s).0
}

/// `kind` is of the kind `want` (of any name, where `want` is a name).
pub open spec fn kind_matches(kind: TokenKind, want: TokenKind) -> bool {
    if want is Name {
        kind is Name
    } else {
        kind == want
    }
}

/// The next token, which must be of the kind `want`.
pub open spec fn expect(src: Seq<char>, s: PState, want: TokenKind) -> (
    Result<Token, ParseError>,
    PState,
) {
    let (r, s1) = next(src, s);
    match r {
        Ok(t) => if kind_matches(t.kind, want) {
            (Ok(t), s1)
        } else {
            (
                Err(ParseError { kind: ParseErrorKind::UnexpectedToken(t.kind), location: t.location }),
                s1,
            )
        },
        Err(e) => (Err(e), s1),
    }
}

pub open spec fn p_primary(src: Seq<char>, s: PState) -> (Result<ExprModel, ParseError>, PState)
    decreases rem(src, s), 1nat,
{
    let (r, s1) = next(src, s);
    match r {
        Err(e) => (Err(e), s1),
        Ok(t) => match t.kind {
            TokenKind::Integer(v) => (Ok(ExprModel::Integer(v, t.location)), s1),
            TokenKind::Name(n) => (Ok(ExprModel::Name(n, t.location)), s1),
            TokenKind::OpenParenthesis => if progressed(src, s, s1) {
                let (r2, s2) = p_expr(src, s1);
                match r2 {
                    Err(e) => (Err(e), s2),
                    Ok(e) => {
                        let (r3, s3) = expect(src, s2, TokenKind::CloseParenthesis);
                        match r3 {
                            Err(x) => (Err(x), s3),
                            Ok(_) => (Ok(e), s3),
                        }
                    },
                }
            } else {
                stuck(s1)
            },
            TokenKind::OpenBrace => if progressed(src, s, s1) {
                p_block(src, s1, Some(t.location))
            } else {
                stuck(s1)
            },
            _ => (
                Err(
                    ParseError {
                        kind: ParseErrorKind::ExpectedExpression(t.kind),
                        location: t.location,
                    },
                ),
                s1,
            ),
        },
    }
}

/// Whether an operator of precedence `p` is left to the caller, under a parent
/// of precedence `parent`.
pub open spec fn yields_to(parent: Option<u8>, p: u8) -> bool {
    match parent {
        Some(q) => p <= q,
        None => false,
    }
}

pub open spec fn p_binary(src: Seq<char>, s: PState, parent: Option<u8>) -> (
    Result<ExprModel, ParseError>,
    PState,
)
    decreases rem(src, s), 2nat,
{
    let (r, s1) = p_primary(src, s);
    match r {
        Err(e) => (Err(e), s1),
        Ok(left) => if progressed(src, s, s1) {
            p_binary_loop(src, s1, parent, left)
        } else {
            stuck(s1)
        },
    }
}

/// The operators and calls that follow `left`.
pub open spec fn p_binary_loop(src: Seq<char>, s: PState, parent: Option<u8>, left: ExprModel) -> (
    Result<ExprModel, ParseError>,
    PState,
)
    decreases rem(src, s), 2nat,
{
    match peek(src, s) {
        Err(e) => (Err(e), s),
        Ok(t) => match operator_of(t.kind) {
            Some(op) => if yields_to(parent, precedence_of(op)) {
                (Ok(left), s)
            } else {
                let (r1, s1) = next(src, s);
                match r1 {
                    Err(e) => (Err(e), s1),
                    Ok(opt) => if progressed(src, s, s1) {
                        let (r2, s2) = p_binary(src, s1, Some(precedence_of(op)));
                        match r2 {
                            Err(e) => (Err(e), s2),
                            Ok(right) => if progressed(src, s, s2) {
                                p_binary_loop(
                                    src,
                                    s2,
                                    parent,
                                    ExprModel::Binary(
                                        Box::new(left),
                                        op,
                                        Box::new(right),
                                        opt.location,
                                    ),
                                )
                            } else {
                                stuck(s2)
                            },
                        }
                    } else {
                        stuck(s1)
                    },
                }
            },
            None => if t.kind is OpenParenthesis {
                let (r1, s1) = expect(src, s, TokenKind::OpenParenthesis);
                match r1 {
                    Err(e) => (Err(e), s1),
                    Ok(open) => if progressed(src, s, s1) {
                        let (r2, s2) = p_args(src, s1, Seq::empty());
                        match r2 {
                            Err(e) => (Err(e), s2),
                            Ok(args) => {
                                let (r3, s3) = expect(src, s2, TokenKind::CloseParenthesis);
                                match r3 {
                                    Err(e) => (Err(e), s3),
                                    Ok(close) => if progressed(src, s, s3) {
                                        p_binary_loop(
                                            src,
                                            s3,
                                            parent,
                                            ExprModel::Call(
                                                Box::new(left),
                                                args,
                                                close.location,
                                                open.location,
                                            ),
                                        )
                                    } else {
                                        stuck(s3)
                                    },
                                }
                            },
                        }
                    } else {
                        stuck(s1)
                    },
                }
            } else {
                (Ok(left), s)
            },
        },
    }
}

/// Comma-separated arguments up to a closing parenthesis, after `acc`.
pub open spec fn p_args(src: Seq<char>, s: PState, acc: Seq<ExprModel>) -> (
    Result<Seq<ExprModel>, ParseError>,
    PState,
)
    decreases rem(src, s), 4nat,
{
    match peek(src, s) {
        Err(e) => (Err(e), s),
        Ok(t) => if t.kind is CloseParenthesis {
            (Ok(acc), s)
        } else {
            let (r1, s1) = p_expr(src, s);
            match r1 {
                Err(e) => (Err(e), s1),
                Ok(e) => match peek(src, s1) {
                    Err(x) => (Err(x), s1),
                    Ok(t2) => if t2.kind is CloseParenthesis {
                        if progressed(src, s, s1) {
                            p_args(src, s1, acc.push(e))
                        } else {
                            stuck(s1)
                        }
                    } else {
                        let (r2, s2) = expect(src, s1, TokenKind::Comma);
                        match r2 {
                            Err(x) => (Err(x), s2),
                            Ok(_) => if progressed(src, s, s2) {
                                p_args(src, s2, acc.push(e))
                            } else {
                                stuck(s2)
                            },
                        }
                    },
                },
            }
        },
    }
}

pub open spec fn p_expr(src: Seq<char>, s: PState) -> (Result<ExprModel, ParseError>, PState)
    decreases rem(src, s), 3nat,
{
    p_binary(src, s, None)
}

/// An optional `: type` after a pattern's name.
pub open spec fn p_pattern_type(src: Seq<char>, s: PState, name: Token, location: Location) -> (
    Result<PatternModel, ParseError>,
    PState,
)
    decreases rem(src, s), 4nat,
{
    match peek(src, s) {
        Err(e) => (Err(e), s),
        Ok(t) => if t.kind is Colon {
            let (r1, s1) = next(src, s);
            match r1 {
                Err(e) => (Err(e), s1),
                Ok(_) => if progressed(src, s, s1) {
                    let (r2, s2) = p_expr(src, s1);
                    match r2 {
                        Err(e) => (Err(e), s2),
                        Ok(ty) => (Ok(PatternModel { name, typ: Some(ty), location }), s2),
                    }
                } else {
                    stuck(s1)
                },
            }
        } else {
            (Ok(PatternModel { name, typ: None, location }), s)
        },
    }
}

pub open spec fn p_pattern(src: Seq<char>, s: PState, requires_let: bool) -> (
    Result<PatternModel, ParseError>,
    PState,
)
    decreases rem(src, s), 4nat,
{
    let (r, s1) = next(src, s);
    match r {
        Err(e) => (Err(e), s1),
        Ok(t) => if t.kind is Let {
            let (r2, s2) = expect(src, s1, TokenKind::Name(InternedStr { index: 0 }));
            match r2 {
                Err(e) => (Err(e), s2),
                Ok(name) => if progressed(src, s, s2) {
                    p_pattern_type(src, s2, name, t.location)
                } else {
                    stuck(s2)
                },
            }
        } else if t.kind is Name && !requires_let {
            if progressed(src, s, s1) {
                p_pattern_type(src, s1, t, t.location)
            } else {
                stuck(s1)
            }
        } else {
            (
                Err(ParseError { kind: ParseErrorKind::ExpectedPattern(t.kind), location: t.location }),
                s1,
            )
        },
    }
}

/// A statement ending in `;` after an expression that starts at `s`.
pub open spec fn p_statement(src: Seq<char>, s: PState) -> (Result<StmtModel, ParseError>, PState)
    decreases rem(src, s), 5nat,
{
    match peek(src, s) {
        Err(e) => (Err(e), s),
        Ok(t) => match t.kind {
            TokenKind::Fn => {
                let (r1, s1) = expect(src, s, TokenKind::Fn);
                match r1 {
                    Err(e) => (Err(e), s1),
                    Ok(f) => if progressed(src, s, s1) {
                        p_fn(src, s1, f.location)
                    } else {
                        stuck(s1)
                    },
                }
            },
            TokenKind::Let => {
                let (r1, s1) = p_pattern(src, s, true);
                match r1 {
                    Err(e) => (Err(e), s1),
                    Ok(pattern) => {
                        let (r2, s2) = expect(src, s1, TokenKind::Equals);
                        match r2 {
                            Err(e) => (Err(e), s2),
                            Ok(eq) => if progressed(src, s, s2) {
                                let (r3, s3) = p_expr(src, s2);
                                match r3 {
                                    Err(e) => (Err(e), s3),
                                    Ok(value) => {
                                        let (r4, s4) = expect(src, s3, TokenKind::Semicolon);
                                        match r4 {
                                            Err(e) => (Err(e), s4),
                                            Ok(_) => (
                                                Ok(
                                                    StmtModel::Let(
                                                        pattern,
                                                        eq.location,
                                                        value,
                                                        t.location,
                                                    ),
                                                ),
                                                s4,
                                            ),
                                        }
                                    },
                                }
                            } else {
                                stuck(s2)
                            },
                        }
                    },
                }
            },
            TokenKind::Return => {
                let (r1, s1) = expect(src, s, TokenKind::Return);
                match r1 {
                    Err(e) => (Err(e), s1),
                    Ok(_) => if progressed(src, s, s1) {
                        let (r2, s2) = p_expr(src, s1);
                        match r2 {
                            Err(e) => (Err(e), s2),
                            Ok(e) => {
                                let (r3, s3) = expect(src, s2, TokenKind::Semicolon);
                                match r3 {
                                    Err(x) => (Err(x), s3),
                                    Ok(_) => (Ok(StmtModel::Return(e, t.location)), s3),
                                }
                            },
                        }
                    } else {
                        stuck(s1)
                    },
                }
            },
            _ => {
                let (r1, s1) = p_expr(src, s);
                match r1 {
                    Err(e) => (Err(e), s1),
                    Ok(e) => {
                        let (r2, s2) = expect(src, s1, TokenKind::Semicolon);
                        match r2 {
                            Err(x) => (Err(x), s2),
                            Ok(_) => (Ok(StmtModel::Expression(e, t.location)), s2),
                        }
                    },
                }
            },
        },
    }
}

/// Comma-separated parameters up to a closing parenthesis, after `acc`.
pub open spec fn p_params(src: Seq<char>, s: PState, acc: Seq<PatternModel>) -> (
    Result<Seq<PatternModel>, ParseError>,
    PState,
)
    decreases rem(src, s), 5nat,
{
    match peek(src, s) {
        Err(e) => (Err(e), s),
        Ok(t) => if t.kind is CloseParenthesis {
            (Ok(acc), s)
        } else {
            let (r1, s1) = p_pattern(src, s, false);
            match r1 {
                Err(e) => (Err(e), s1),
                Ok(p) => match peek(src, s1) {
                    Err(x) => (Err(x), s1),
                    Ok(t2) => if t2.kind is CloseParenthesis {
                        if progressed(src, s, s1) {
                            p_params(src, s1, acc.push(p))
                        } else {
                            stuck(s1)
                        }
                    } else {
                        let (r2, s2) = expect(src, s1, TokenKind::Comma);
                        match r2 {
                            Err(x) => (Err(x), s2),
                            Ok(_) => if progressed(src, s, s2) {
                                p_params(src, s2, acc.push(p))
                            } else {
                                stuck(s2)
                            },
                        }
                    },
                },
            }
        },
    }
}

/// A function after its `fn` keyword, which stands at `fn_location`.
pub open spec fn p_fn(src: Seq<char>, s: PState, fn_location: Location) -> (
    Result<StmtModel, ParseError>,
    PState,
)
    decreases rem(src, s), 1nat,
{
    let (r1, s1) = expect(src, s, TokenKind::Name(InternedStr { index: 0 }));
    match r1 {
        Err(e) => (Err(e), s1),
        Ok(name) => {
            let (r2, s2) = expect(src, s1, TokenKind::OpenParenthesis);
            match r2 {
                Err(e) => (Err(e), s2),
                Ok(_) => if progressed(src, s, s2) {
                    let (r3, s3) = p_params(src, s2, Seq::empty());
                    match r3 {
                        Err(e) => (Err(e), s3),
                        Ok(params) => {
                            let (r4, s4) = expect(src, s3, TokenKind::CloseParenthesis);
                            match r4 {
                                Err(e) => (Err(e), s4),
                                Ok(_) => match peek(src, s4) {
                                    Err(e) => (Err(e), s4),
                                    Ok(t) => if t.kind is RightArrow {
                                        let (r5, s5) = expect(src, s4, TokenKind::RightArrow);
                                        match r5 {
                                            Err(e) => (Err(e), s5),
                                            Ok(_) => if progressed(src, s, s5) {
                                                let (r6, s6) = p_expr(src, s5);
                                                match r6 {
                                                    Err(e) => (Err(e), s6),
                                                    Ok(rt) => if progressed(src, s, s6) {
                                                        p_fn_body(src, s6, name, params, Some(rt), fn_location)
                                                    } else {
                                                        stuck(s6)
                                                    },
                                                }
                                            } else {
                                                stuck(s5)
                                            },
                                        }
                                    } else if progressed(src, s, s4) {
                                        p_fn_body(src, s4, name, params, None, fn_location)
                                    } else {
                                        stuck(s4)
                                    },
                                },
                            }
                        },
                    }
                } else {
                    stuck(s2)
                },
            }
        },
    }
}

/// A function's body, a block, after the rest of the function.
pub open spec fn p_fn_body(
    src: Seq<char>,
    s: PState,
    name: Token,
    params: Seq<PatternModel>,
    return_type: Option<ExprModel>,
    fn_location: Location,
) -> (Result<StmtModel, ParseError>, PState)
    decreases rem(src, s), 8nat,
{
    let (r, s1) = p_block(src, s, None);
    match r {
        Err(e) => (Err(e), s1),
        Ok(body) => (Ok(StmtModel::Function(name, params, return_type, body, fn_location)), s1),
    }
}

/// Statements up to a closing brace, after `acc`.
pub open spec fn p_block_items(src: Seq<char>, s: PState, acc: Seq<StmtModel>) -> (
    Result<Seq<StmtModel>, ParseError>,
    PState,
)
    decreases rem(src, s), 6nat,
{
    match peek(src, s) {
        Err(e) => (Err(e), s),
        Ok(t) => if t.kind is CloseBrace {
            (Ok(acc), s)
        } else {
            let (r1, s1) = p_statement(src, s);
            match r1 {
                Err(e) => (Err(e), s1),
                Ok(st) => if progressed(src, s, s1) {
                    p_block_items(src, s1, acc.push(st))
                } else {
                    stuck(s1)
                },
            }
        },
    }
}

/// A block; `open` is where its opening brace stood if that was already read.
pub open spec fn p_block(src: Seq<char>, s: PState, open: Option<Location>) -> (
    Result<ExprModel, ParseError>,
    PState,
)
    decreases rem(src, s), 7nat,
{
    let (r0, s0) = match open {
        Some(l) => (Ok(l), s),
        None => {
            let (r, s1) = expect(src, s, TokenKind::OpenBrace);
            match r {
                Ok(t) => (Ok(t.location), s1),
                Err(e) => (Err(e), s1),
            }
        },
    };
    match r0 {
        Err(e) => (Err(e), s0),
        Ok(location) => if rem(src, s0) <= rem(src, s) {
            let (r1, s1) = p_block_items(src, s0, Seq::empty());
            match r1 {
                Err(e) => (Err(e), s1),
                Ok(statements) => {
                    let (r2, s2) = expect(src, s1, TokenKind::CloseBrace);
                    match r2 {
                        Err(e) => (Err(e), s2),
                        Ok(close) => (Ok(ExprModel::Block(statements, close.location, location)), s2),
                    }
                },
            }
        } else {
            stuck(s0)
        },
    }
}

/// A global item: today only a function.
pub open spec fn p_global(src: Seq<char>, s: PState) -> (Result<StmtModel, ParseError>, PState) {
    let (r, s1) = next(src, s);
    match r {
        Err(e) => (Err(e), s1),
        Ok(t) => if t.kind is Fn {
            if progressed(src, s, s1) {
                p_fn(src, s1, t.location)
            } else {
                stuck(s1)
            }
        } else {
            (
                Err(
                    ParseError {
                        kind: ParseErrorKind::ExpectedGlobalItem(t.kind),
                        location: t.location,
                    },
                ),
                s1,
            )
        },
    }
}

/// Global items up to the end of the source, after `acc`.
pub open spec fn p_program(src: Seq<char>, s: PState, acc: Seq<StmtModel>) -> (
    Result<Seq<StmtModel>, ParseError>,
    PState,
)
    decreases rem(src, s),
{
    match peek(src, s) {
        Err(e) => (Err(e), s),
        Ok(t) => if t.kind is EOF {
            (Ok(acc), s)
        } else {
            let (r1, s1) = p_global(src, s);
            match r1 {
                Err(e) => (Err(e), s1),
                Ok(a) => if progressed(src, s, s1) {
                    p_program(src, s1, acc.push(a))
                } else {
                    stuck(s1)
                },
            }
        },
    }
}

/// The state at the start of a source.
pub open spec fn start_state(filepath: InternedStr, names: Seq<Seq<char>>) -> PState {
    PState {
        cur: Cursor {
            index: 0,
            location: Location { filepath, position: 0, line: 1, column: 1 },
        },
        names,
    }
}

/// What parsing the whole of `source` gives, and the interned strings after it,
/// given those interned before.
pub open spec fn parse_model(filepath: InternedStr, source: Seq<char>, names: Seq<Seq<char>>) -> (
    Result<Seq<StmtModel>, ParseError>,
    Seq<Seq<char>>,
) {
    let (r, s) = p_program(source, start_state(filepath, names), Seq::empty());
    (r, s.names)
}

/// The parse state of a scanner and an interner.
pub open spec fn state(l: Lexer, i: Interner) -> PState {
    PState { cur: l.cursor(), names: i.strings() }
}

/// A scanner and an interner that parsing can go on from.
pub open spec fn ready(l: Lexer, i: Interner) -> bool {
    &&& l.wf()
    &&& i.wf()
    &&& room(l.source(), l.cursor(), i.strings())
}

/// From `(l0, i0)` to `(l1, i1)` the scanner went forward over the same source.
pub open spec fn moved_on(l0: Lexer, i0: Interner, l1: Lexer, i1: Interner) -> bool {
    &&& ready(l1, i1)
    &&& l1.source() == l0.source()
    &&& l0.cursor().index <= l1.cursor().index
}

pub open spec fn expr_outcome(r: Result<AstExpression, ParseError>, m: Result<ExprModel, ParseError>) -> bool {
    match r {
        Ok(e) => m == Ok::<ExprModel, ParseError>(expr_model(e)),
        Err(x) => m == Err::<ExprModel, ParseError>(x),
    }
}

pub open spec fn exprs_outcome(
    r: Result<Vec<AstExpression>, ParseError>,
    m: Result<Seq<ExprModel>, ParseError>,
) -> bool {
    match r {
        Ok(v) => m == Ok::<Seq<ExprModel>, ParseError>(expr_models(v@)),
        Err(x) => m == Err::<Seq<ExprModel>, ParseError>(x),
    }
}

pub open spec fn stmt_outcome(r: Result<Ast, ParseError>, m: Result<StmtModel, ParseError>) -> bool {
    match r {
        Ok(a) => m == Ok::<StmtModel, ParseError>(stmt_model(a)),
        Err(x) => m == Err::<StmtModel, ParseError>(x),
    }
}

pub open spec fn stmts_outcome(r: Result<Vec<Ast>, ParseError>, m: Result<Seq<StmtModel>, ParseError>) -> bool {
    match r {
        Ok(v) => m == Ok::<Seq<StmtModel>, ParseError>(stmt_models(v@)),
        Err(x) => m == Err::<Seq<StmtModel>, ParseError>(x),
    }
}

pub open spec fn pattern_outcome(
    r: Result<AstPattern, ParseError>,
    m: Result<PatternModel, ParseError>,
) -> bool {
    match r {
        Ok(p) => m == Ok::<PatternModel, ParseError>(pattern_model(p)),
        Err(x) => m == Err::<PatternModel, ParseError>(x),
    }
}

pub open spec fn patterns_outcome(
    r: Result<Vec<AstPattern>, ParseError>,
    m: Result<Seq<PatternModel>, ParseError>,
) -> bool {
    match r {
        Ok(v) => m == Ok::<Seq<PatternModel>, ParseError>(pattern_models(v@)),
        Err(x) => m == Err::<Seq<PatternModel>, ParseError>(x),
    }
}

fn next_token(lexer: &mut Lexer, interner: &mut Interner) -> (r: Result<Token, ParseError>)
    requires
        ready(*old(lexer), *old(interner)),
    ensures
        moved_on(*old(lexer), *old(interner), *final(lexer), *final(interner)),
        (r, state(*final(lexer), *final(interner))) == next(
            old(lexer).source(),
            state(*old(lexer), *old(interner)),
        ),
        (r matches Ok(t) && !(t.kind is EOF)) ==> old(lexer).cursor().index < final(lexer).cursor().index,
{
    match lexer.next_token(interner) {
        Ok(t) => Ok(t),
        Err(e) => Err(ParseError::from(e)),
    }
}

fn peek_token(lexer: &Lexer, interner: &Interner) -> (r: Result<Token, ParseError>)
    requires
        ready(*lexer, *interner),
    ensures
        r == peek(lexer.source(), state(*lexer, *interner)),
{
    match lexer.peek_token(interner) {
        Ok(t) => Ok(t),
        Err(e) => Err(ParseError::from(e)),
    }
}

fn kind_matches_exec(kind: TokenKind, want: TokenKind) -> (r: bool)
    ensures
        r == kind_matches(kind, want),
{
    match want {
        TokenKind::Name(_) => matches!(kind, TokenKind::Name(_)),
        _ => kind == want,
    }
}

/// The next token, which must be of the kind `want`.
fn expect_token(lexer: &mut Lexer, interner: &mut Interner, want: TokenKind) -> (r: Result<
    Token,
    ParseError,
>)
    requires
        ready(*old(lexer), *old(interner)),
        !(want is EOF),
    ensures
        moved_on(*old(lexer), *old(interner), *final(lexer), *final(interner)),
        (r, state(*final(lexer), *final(interner))) == expect(
            old(lexer).source(),
            state(*old(lexer), *old(interner)),
            want,
        ),
        r is Ok ==> old(lexer).cursor().index < final(lexer).cursor().index,
{
    match next_token(lexer, interner) {
        Ok(t) => if kind_matches_exec(t.kind, want) {
            Ok(t)
        } else {
            Err(ParseError { kind: ParseErrorKind::UnexpectedToken(t.kind), location: t.location })
        },
        Err(e) => Err(e),
    }
}

pub fn parse_primary_expression(lexer: &mut Lexer, interner: &mut Interner) -> (r: Result<
    AstExpression,
    ParseError,
>)
    requires
        ready(*old(lexer), *old(interner)),
    ensures
        moved_on(*old(lexer), *old(interner), *final(lexer), *final(interner)),
        expr_outcome(r, p_primary(old(lexer).source(), state(*old(lexer), *old(interner))).0),
        state(*final(lexer), *final(interner)) == p_primary(
            old(lexer).source(),
            state(*old(lexer), *old(interner)),
        ).1,
        r is Ok ==> old(lexer).cursor().index < final(lexer).cursor().index,
    decreases rem(old(lexer).source(), state(*old(lexer), *old(interner))), 1nat,
{
    let t = match next_token(lexer, interner) {
        Ok(t) => t,
        Err(e) => return Err(e),
    };
    match t.kind {
        TokenKind::Integer(value) => Ok(
            AstExpression { kind: AstExpressionKind::Integer(value), location: t.location },
        ),
        TokenKind::Name(name) => Ok(
            AstExpression { kind: AstExpressionKind::Name(name), location: t.location },
        ),
        TokenKind::OpenParenthesis => {
            let expression = match parse_expression(lexer, interner) {
                Ok(e) => e,
                Err(e) => return Err(e),
            };
            match expect_token(lexer, interner, TokenKind::CloseParenthesis) {
                Ok(_) => Ok(expression),
                Err(e) => Err(e),
            }
        },
        TokenKind::OpenBrace => parse_block(lexer, interner, Some(t.location)),
        _ => Err(ParseError { kind: ParseErrorKind::ExpectedExpression(t.kind), location: t.location }),
    }
}

/// Precedence climbing: a primary expression, then the operators that bind
/// tighter than `parent_precedence` (all of them where there is none) and the
/// calls that follow it, folded from the left.
pub fn parse_binary_expression(
    lexer: &mut Lexer,
    interner: &mut Interner,
    parent_precedence: Option<u8>,
) -> (r: Result<AstExpression, ParseError>)
    requires
        ready(*old(lexer), *old(interner)),
    ensures
        moved_on(*old(lexer), *old(interner), *final(lexer), *final(interner)),
        expr_outcome(
            r,
            p_binary(old(lexer).source(), state(*old(lexer), *old(interner)), parent_precedence).0,
        ),
        state(*final(lexer), *final(interner)) == p_binary(
            old(lexer).source(),
            state(*old(lexer), *old(interner)),
            parent_precedence,
        ).1,
        r is Ok ==> old(lexer).cursor().index < final(lexer).cursor().index,
    decreases rem(old(lexer).source(), state(*old(lexer), *old(interner))), 2nat,
{
    let ghost src = lexer.source();
    let ghost s0 = state(*lexer, *interner);
    let mut left = match parse_primary_expression(lexer, interner) {
        Ok(l) => l,
        Err(e) => return Err(e),
    };
    loop
        invariant
            ready(*lexer, *interner),
            src == lexer.source(),
            src == old(lexer).source(),
            s0 == state(*old(lexer), *old(interner)),
            s0.cur.index < lexer.cursor().index,
            p_binary(src, s0, parent_precedence) == p_binary_loop(
                src,
                state(*lexer, *interner),
                parent_precedence,
                expr_model(left),
            ),
        decreases rem(src, state(*lexer, *interner)),
    {
        let t = match peek_token(lexer, interner) {
            Ok(t) => t,
            Err(e) => return Err(e),
        };
        if let Some(operator) = BinaryOperator::from_token_kind(t.kind) {
            let precedence = operator.precedence();
            if let Some(parent) = parent_precedence {
                if precedence <= parent {
                    return Ok(left);
                }
            }
            let op_token = match next_token(lexer, interner) {
                Ok(t) => t,
                Err(e) => return Err(e),
            };
            let right = match parse_binary_expression(lexer, interner, Some(precedence)) {
                Ok(r) => r,
                Err(e) => return Err(e),
            };
            left =
            AstExpression {
                kind: AstExpressionKind::Binary {
                    left: Box::new(left),
                    operator,
                    right: Box::new(right),
                },
                location: op_token.location,
            };
        } else if matches!(t.kind, TokenKind::OpenParenthesis) {
            let open = match expect_token(lexer, interner, TokenKind::OpenParenthesis) {
                Ok(t) => t,
                Err(e) => return Err(e),
            };
            let arguments = match parse_arguments(lexer, interner) {
                Ok(a) => a,
                Err(e) => return Err(e),
            };
            let close = match expect_token(lexer, interner, TokenKind::CloseParenthesis) {
                Ok(t) => t,
                Err(e) => return Err(e),
            };
            proof {
                lemma_call_model(left, arguments, close.location, open.location);
            }
            left =
            AstExpression {
                kind: AstExpressionKind::Call {
                    operand: Box::new(left),
                    arguments,
                    close_parenthesis: close.location,
                },
                location: open.location,
            };
        } else {
            return Ok(left);
        }
    }
}

/// Comma-separated arguments, up to (not past) a closing parenthesis.
fn parse_arguments(lexer: &mut Lexer, interner: &mut Interner) -> (r: Result<
    Vec<AstExpression>,
    ParseError,
>)
    requires
        ready(*old(lexer), *old(interner)),
    ensures
        moved_on(*old(lexer), *old(interner), *final(lexer), *final(interner)),
        exprs_outcome(
            r,
            p_args(old(lexer).source(), state(*old(lexer), *old(interner)), Seq::empty()).0,
        ),
        state(*final(lexer), *final(interner)) == p_args(
            old(lexer).source(),
            state(*old(lexer), *old(interner)),
            Seq::empty(),
        ).1,
    decreases rem(old(lexer).source(), state(*old(lexer), *old(interner))), 4nat,
{
    let ghost src = lexer.source();
    let ghost s0 = state(*lexer, *interner);
    let mut arguments: Vec<AstExpression> = Vec::new();
    assert(expr_models(arguments@) =~= Seq::empty());
    loop
        invariant
            ready(*lexer, *interner),
            src == lexer.source(),
            src == old(lexer).source(),
            s0 == state(*old(lexer), *old(interner)),
            s0.cur.index <= lexer.cursor().index,
            p_args(src, s0, Seq::empty()) == p_args(
                src,
                state(*lexer, *interner),
                expr_models(arguments@),
            ),
        decreases rem(src, state(*lexer, *interner)),
    {
        let t = match peek_token(lexer, interner) {
            Ok(t) => t,
            Err(e) => return Err(e),
        };
        if matches!(t.kind, TokenKind::CloseParenthesis) {
            return Ok(arguments);
        }
        let e = match parse_expression(lexer, interner) {
            Ok(e) => e,
            Err(x) => return Err(x),
        };
        let t2 = match peek_token(lexer, interner) {
            Ok(t) => t,
            Err(x) => return Err(x),
        };
        if !matches!(t2.kind, TokenKind::CloseParenthesis) {
            match expect_token(lexer, interner, TokenKind::Comma) {
                Ok(_) => {},
                Err(x) => return Err(x),
            }
        }
        proof {
            assert(expr_models(arguments@.push(e)) =~= expr_models(arguments@).push(expr_model(e)));
        }
        arguments.push(e);
    }
}

pub fn parse_expression(lexer: &mut Lexer, interner: &mut Interner) -> (r: Result<
    AstExpression,
    ParseError,
>)
    requires
        ready(*old(lexer), *old(interner)),
    ensures
        moved_on(*old(lexer), *old(interner), *final(lexer), *final(interner)),
        expr_outcome(r, p_expr(old(lexer).source(), state(*old(lexer), *old(interner))).0),
        state(*final(lexer), *final(interner)) == p_expr(
            old(lexer).source(),
            state(*old(lexer), *old(interner)),
        ).1,
        r is Ok ==> old(lexer).cursor().index < final(lexer).cursor().index,
    decreases rem(old(lexer).source(), state(*old(lexer), *old(interner))), 3nat,
{
    parse_binary_expression(lexer, interner, None)
}

/// A block; `open_brace_location` is where its opening brace stood if the
/// caller already read it.
pub fn parse_block(
    lexer: &mut Lexer,
    interner: &mut Interner,
    open_brace_location: Option<Location>,
) -> (r: Result<AstExpression, ParseError>)
    requires
        ready(*old(lexer), *old(interner)),
    ensures
        moved_on(*old(lexer), *old(interner), *final(lexer), *final(interner)),
        expr_outcome(
            r,
            p_block(old(lexer).source(), state(*old(lexer), *old(interner)), open_brace_location).0,
        ),
        state(*final(lexer), *final(interner)) == p_block(
            old(lexer).source(),
            state(*old(lexer), *old(interner)),
            open_brace_location,
        ).1,
        r is Ok ==> old(lexer).cursor().index < final(lexer).cursor().index,
    decreases rem(old(lexer).source(), state(*old(lexer), *old(interner))), 7nat,
{
    let location = match open_brace_location {
        Some(l) => l,
        None => match expect_token(lexer, interner, TokenKind::OpenBrace) {
            Ok(t) => t.location,
            Err(e) => return Err(e),
        },
    };
    let statements = match parse_statements(lexer, interner) {
        Ok(s) => s,
        Err(e) => return Err(e),
    };
    let close_brace = match expect_token(lexer, interner, TokenKind::CloseBrace) {
        Ok(t) => t.location,
        Err(e) => return Err(e),
    };
    proof {
        lemma_block_model(statements, close_brace, location);
    }
    Ok(AstExpression { kind: AstExpressionKind::Block { statements, close_brace }, location })
}

/// Statements, up to (not past) a closing brace.
fn parse_statements(lexer: &mut Lexer, interner: &mut Interner) -> (r: Result<Vec<Ast>, ParseError>)
    requires
        ready(*old(lexer), *old(interner)),
    ensures
        moved_on(*old(lexer), *old(interner), *final(lexer), *final(interner)),
        stmts_outcome(
            r,
            p_block_items(old(lexer).source(), state(*old(lexer), *old(interner)), Seq::empty()).0,
        ),
        state(*final(lexer), *final(interner)) == p_block_items(
            old(lexer).source(),
            state(*old(lexer), *old(interner)),
            Seq::empty(),
        ).1,
    decreases rem(old(lexer).source(), state(*old(lexer), *old(interner))), 6nat,
{
    let ghost src = lexer.source();
    let ghost s0 = state(*lexer, *interner);
    let mut statements: Vec<Ast> = Vec::new();
    assert(stmt_models(statements@) =~= Seq::empty());
    loop
        invariant
            ready(*lexer, *interner),
            src == lexer.source(),
            src == old(lexer).source(),
            s0 == state(*old(lexer), *old(interner)),
            s0.cur.index <= lexer.cursor().index,
            p_block_items(src, s0, Seq::empty()) == p_block_items(
                src,
                state(*lexer, *interner),
                stmt_models(statements@),
            ),
        decreases rem(src, state(*lexer, *interner)),
    {
        let t = match peek_token(lexer, interner) {
            Ok(t) => t,
            Err(e) => return Err(e),
        };
        if matches!(t.kind, TokenKind::CloseBrace) {
            return Ok(statements);
        }
        let st = match parse_statement(lexer, interner) {
            Ok(st) => st,
            Err(e) => return Err(e),
        };
        proof {
            assert(stmt_models(statements@.push(st)) =~= stmt_models(statements@).push(
                stmt_model(st),
            ));
        }
        statements.push(st);
    }
}

/// A pattern: `let name` or, where `requires_let` is false, a bare name; then
/// an optional `: type`.
pub fn parse_pattern(lexer: &mut Lexer, interner: &mut Interner, requires_let: bool) -> (r: Result<
    AstPattern,
    ParseError,
>)
    requires
        ready(*old(lexer), *old(interner)),
    ensures
        moved_on(*old(lexer), *old(interner), *final(lexer), *final(interner)),
        pattern_outcome(
            r,
            p_pattern(old(lexer).source(), state(*old(lexer), *old(interner)), requires_let).0,
        ),
        state(*final(lexer), *final(interner)) == p_pattern(
            old(lexer).source(),
            state(*old(lexer), *old(interner)),
            requires_let,
        ).1,
        r is Ok ==> old(lexer).cursor().index < final(lexer).cursor().index,
    decreases rem(old(lexer).source(), state(*old(lexer), *old(interner))), 4nat,
{
    let t = match next_token(lexer, interner) {
        Ok(t) => t,
        Err(e) => return Err(e),
    };
    if matches!(t.kind, TokenKind::Let) {
        let name_token = match expect_token(
            lexer,
            interner,
            TokenKind::Name(InternedStr { index: 0 }),
        ) {
            Ok(n) => n,
            Err(e) => return Err(e),
        };
        parse_pattern_type(lexer, interner, name_token, t.location)
    } else if matches!(t.kind, TokenKind::Name(_)) && !requires_let {
        parse_pattern_type(lexer, interner, t, t.location)
    } else {
        Err(ParseError { kind: ParseErrorKind::ExpectedPattern(t.kind), location: t.location })
    }
}

/// The optional `: type` after a pattern's name.
fn parse_pattern_type(
    lexer: &mut Lexer,
    interner: &mut Interner,
    name_token: Token,
    location: Location,
) -> (r: Result<AstPattern, ParseError>)
    requires
        ready(*old(lexer), *old(interner)),
    ensures
        moved_on(*old(lexer), *old(interner), *final(lexer), *final(interner)),
        pattern_outcome(
            r,
            p_pattern_type(
                old(lexer).source(),
                state(*old(lexer), *old(interner)),
                name_token,
                location,
            ).0,
        ),
        state(*final(lexer), *final(interner)) == p_pattern_type(
            old(lexer).source(),
            state(*old(lexer), *old(interner)),
            name_token,
            location,
        ).1,
    decreases rem(old(lexer).source(), state(*old(lexer), *old(interner))), 4nat,
{
    let t = match peek_token(lexer, interner) {
        Ok(t) => t,
        Err(e) => return Err(e),
    };
    let typ = if matches!(t.kind, TokenKind::Colon) {
        match next_token(lexer, interner) {
            Ok(_) => {},
            Err(e) => return Err(e),
        }
        match parse_expression(lexer, interner) {
            Ok(e) => Some(e),
            Err(e) => return Err(e),
        }
    } else {
        None
    };
    Ok(AstPattern { kind: AstPatternKind::Let { name_token, typ }, location })
}

/// A statement: a nested function, a `let`, a `return`, or an expression, each
/// but the function ending in `;`.
#[verifier::rlimit(60)]
pub fn parse_statement(lexer: &mut Lexer, interner: &mut Interner) -> (r: Result<Ast, ParseError>)
    requires
        ready(*old(lexer), *old(interner)),
    ensures
        moved_on(*old(lexer), *old(interner), *final(lexer), *final(interner)),
        stmt_outcome(r, p_statement(old(lexer).source(), state(*old(lexer), *old(interner))).0),
        state(*final(lexer), *final(interner)) == p_statement(
            old(lexer).source(),
            state(*old(lexer), *old(interner)),
        ).1,
        r is Ok ==> old(lexer).cursor().index < final(lexer).cursor().index,
    decreases rem(old(lexer).source(), state(*old(lexer), *old(interner))), 5nat,
{
    let t = match peek_token(lexer, interner) {
        Ok(t) => t,
        Err(e) => return Err(e),
    };
    match t.kind {
        TokenKind::Fn => {
            let f = match expect_token(lexer, interner, TokenKind::Fn) {
                Ok(f) => f,
                Err(e) => return Err(e),
            };
            parse_fn(lexer, interner, f.location)
        },
        TokenKind::Let => {
            let pattern = match parse_pattern(lexer, interner, true) {
                Ok(p) => p,
                Err(e) => return Err(e),
            };
            let equals = match expect_token(lexer, interner, TokenKind::Equals) {
                Ok(t) => t.location,
                Err(e) => return Err(e),
            };
            let value = match parse_expression(lexer, interner) {
                Ok(v) => v,
                Err(e) => return Err(e),
            };
            match expect_token(lexer, interner, TokenKind::Semicolon) {
                Ok(_) => Ok(
                    Ast {
                        kind: AstKind::Let { pattern, equals, value: Box::new(value) },
                        location: t.location,
                    },
                ),
                Err(e) => Err(e),
            }
        },
        TokenKind::Return => {
            match expect_token(lexer, interner, TokenKind::Return) {
                Ok(_) => {},
                Err(e) => return Err(e),
            }
            let expression = match parse_expression(lexer, interner) {
                Ok(v) => v,
                Err(e) => return Err(e),
            };
            match expect_token(lexer, interner, TokenKind::Semicolon) {
                Ok(_) => Ok(Ast { kind: AstKind::Return { expression }, location: t.location }),
                Err(e) => Err(e),
            }
        },
        _ => {
            let expression = match parse_expression(lexer, interner) {
                Ok(v) => v,
                Err(e) => return Err(e),
            };
            match expect_token(lexer, interner, TokenKind::Semicolon) {
                Ok(_) => Ok(Ast { kind: AstKind::Expression(expression), location: t.location }),
                Err(e) => Err(e),
            }
        },
    }
}

/// Comma-separated parameters, up to (not past) a closing parenthesis.
fn parse_parameters(lexer: &mut Lexer, interner: &mut Interner) -> (r: Result<
    Vec<AstPattern>,
    ParseError,
>)
    requires
        ready(*old(lexer), *old(interner)),
    ensures
        moved_on(*old(lexer), *old(interner), *final(lexer), *final(interner)),
        patterns_outcome(
            r,
            p_params(old(lexer).source(), state(*old(lexer), *old(interner)), Seq::empty()).0,
        ),
        state(*final(lexer), *final(interner)) == p_params(
            old(lexer).source(),
            state(*old(lexer), *old(interner)),
            Seq::empty(),
        ).1,
    decreases rem(old(lexer).source(), state(*old(lexer), *old(interner))), 5nat,
{
    let ghost src = lexer.source();
    let ghost s0 = state(*lexer, *interner);
    let mut arguments: Vec<AstPattern> = Vec::new();
    assert(pattern_models(arguments@) =~= Seq::empty());
    loop
        invariant
            ready(*lexer, *interner),
            src == lexer.source(),
            src == old(lexer).source(),
            s0 == state(*old(lexer), *old(interner)),
            s0.cur.index <= lexer.cursor().index,
            p_params(src, s0, Seq::empty()) == p_params(
                src,
                state(*lexer, *interner),
                pattern_models(arguments@),
            ),
        decreases rem(src, state(*lexer, *interner)),
    {
        let t = match peek_token(lexer, interner) {
            Ok(t) => t,
            Err(e) => return Err(e),
        };
        if matches!(t.kind, TokenKind::CloseParenthesis) {
            return Ok(arguments);
        }
        let p = match parse_pattern(lexer, interner, false) {
            Ok(p) => p,
            Err(x) => return Err(x),
        };
        let t2 = match peek_token(lexer, interner) {
            Ok(t) => t,
            Err(x) => return Err(x),
        };
        if !matches!(t2.kind, TokenKind::CloseParenthesis) {
            match expect_token(lexer, interner, TokenKind::Comma) {
                Ok(_) => {},
                Err(x) => return Err(x),
            }
        }
        proof {
            assert(pattern_models(arguments@.push(p)) =~= pattern_models(arguments@).push(
                pattern_model(p),
            ));
        }
        arguments.push(p);
    }
}

/// A function after its `fn` keyword: name, parameters in parentheses, an
/// optional `-> type`, and a block for its body.
pub fn parse_fn(lexer: &mut Lexer, interner: &mut Interner, fn_location: Location) -> (r: Result<
    Ast,
    ParseError,
>)
    requires
        ready(*old(lexer), *old(interner)),
    ensures
        moved_on(*old(lexer), *old(interner), *final(lexer), *final(interner)),
        stmt_outcome(
            r,
            p_fn(old(lexer).source(), state(*old(lexer), *old(interner)), fn_location).0,
        ),
        state(*final(lexer), *final(interner)) == p_fn(
            old(lexer).source(),
            state(*old(lexer), *old(interner)),
            fn_location,
        ).1,
        r is Ok ==> old(lexer).cursor().index < final(lexer).cursor().index,
    decreases rem(old(lexer).source(), state(*old(lexer), *old(interner))), 1nat,
{
    let name = match expect_token(lexer, interner, TokenKind::Name(InternedStr { index: 0 })) {
        Ok(n) => n,
        Err(e) => return Err(e),
    };
    match expect_token(lexer, interner, TokenKind::OpenParenthesis) {
        Ok(_) => {},
        Err(e) => return Err(e),
    }
    let arguments = match parse_parameters(lexer, interner) {
        Ok(a) => a,
        Err(e) => return Err(e),
    };
    match expect_token(lexer, interner, TokenKind::CloseParenthesis) {
        Ok(_) => {},
        Err(e) => return Err(e),
    }
    let t = match peek_token(lexer, interner) {
        Ok(t) => t,
        Err(e) => return Err(e),
    };
    let return_type = if matches!(t.kind, TokenKind::RightArrow) {
        match expect_token(lexer, interner, TokenKind::RightArrow) {
            Ok(_) => {},
            Err(e) => return Err(e),
        }
        match parse_expression(lexer, interner) {
            Ok(e) => Some(Box::new(e)),
            Err(e) => return Err(e),
        }
    } else {
        None
    };
    let body = match parse_block(lexer, interner, None) {
        Ok(b) => b,
        Err(e) => return Err(e),
    };
    proof {
        lemma_function_model(name, arguments, return_type, body, fn_location);
    }
    Ok(Ast { kind: AstKind::Function { name, arguments, return_type, body }, location: fn_location })
}

/// A global item: today only a function.
pub fn parse_global(lexer: &mut Lexer, interner: &mut Interner) -> (r: Result<Ast, ParseError>)
    requires
        ready(*old(lexer), *old(interner)),
    ensures
        moved_on(*old(lexer), *old(interner), *final(lexer), *final(interner)),
        stmt_outcome(r, p_global(old(lexer).source(), state(*old(lexer), *old(interner))).0),
        state(*final(lexer), *final(interner)) == p_global(
            old(lexer).source(),
            state(*old(lexer), *old(interner)),
        ).1,
        r is Ok ==> old(lexer).cursor().index < final(lexer).cursor().index,
{
    let t = match next_token(lexer, interner) {
        Ok(t) => t,
        Err(e) => return Err(e),
    };
    if matches!(t.kind, TokenKind::Fn) {
        parse_fn(lexer, interner, t.location)
    } else {
        Err(ParseError { kind: ParseErrorKind::ExpectedGlobalItem(t.kind), location: t.location })
    }
}

/// Parses the whole of `source`, named `filepath`, into its global items; the
/// first error ends the parse.
pub fn parse(filepath: InternedStr, source: &str, interner: &mut Interner) -> (r: Result<
    Vec<Ast>,
    ParseError,
>)
    requires
        old(interner).wf(),
        old(interner).strings().len() + source@.len() <= u32::MAX,
    ensures
        final(interner).wf(),
        stmts_outcome(r, parse_model(filepath, source@, old(interner).strings()).0),
        final(interner).strings() == parse_model(filepath, source@, old(interner).strings()).1,
{
    let lexer = &mut Lexer::new(filepath, source);
    let ghost src = source@;
    let ghost s0 = state(*lexer, *interner);
    let mut statements: Vec<Ast> = Vec::new();
    assert(stmt_models(statements@) =~= Seq::empty());
    loop
        invariant
            ready(*lexer, *interner),
            src == lexer.source(),
            src == source@,
            s0 == start_state(filepath, old(interner).strings()),
            p_program(src, s0, Seq::empty()) == p_program(
                src,
                state(*lexer, *interner),
                stmt_models(statements@),
            ),
        decreases rem(src, state(*lexer, *interner)),
    {
        let t = match peek_token(lexer, interner) {
            Ok(t) => t,
            Err(e) => return Err(e),
        };
        if matches!(t.kind, TokenKind::EOF) {
            return Ok(statements);
        }
        let a = match parse_global(lexer, interner) {
            Ok(a) => a,
            Err(e) => return Err(e),
        };
        proof {
            assert(stmt_models(statements@.push(a)) =~= stmt_models(statements@).push(
                stmt_model(a),
            ));
        }
        statements.push(a);
    }
}

/// Parses `source` as `parse` does where the interner has a key left for every
/// name that the source can hold; otherwise parses nothing and returns `None`.
pub fn try_parse(filepath: InternedStr, source: &str, interner: &mut Interner) -> (r: Option<
    Result<Vec<Ast>, ParseError>,
>)
    requires
        old(interner).wf(),
    ensures
        final(interner).wf(),
        r is None <==> old(interner).strings().len() + source@.len() > u32::MAX,
        r is None ==> final(interner).strings() == old(interner).strings(),
        r matches Some(res) ==> stmts_outcome(
            res,
            parse_model(filepath, source@, old(interner).strings()).0,
        ) && final(interner).strings() == parse_model(
            filepath,
            source@,
            old(interner).strings(),
        ).1,
{
    let held = interner.len();
    let length = source.unicode_len();
    if length > u32::MAX as usize || held > u32::MAX as usize - length {
        None
    } else {
        Some(parse(filepath, source, interner))
    }
}

/// Parsing is a function of its input: two parses of the same source under the
/// same name, each starting from an interner that holds the same strings, give
/// equal trees (or equal errors) and leave the interner holding the same
/// strings.
pub proof fn lemma_parse_deterministic(
    filepath: InternedStr,
    source: Seq<char>,
    names: Seq<Seq<char>>,
    r1: Result<Vec<Ast>, ParseError>,
    names1: Seq<Seq<char>>,
    r2: Result<Vec<Ast>, ParseError>,
    names2: Seq<Seq<char>>,
)
    requires
        stmts_outcome(r1, parse_model(filepath, source, names).0),
        names1 == parse_model(filepath, source, names).1,
        stmts_outcome(r2, parse_model(filepath, source, names).0),
        names2 == parse_model(filepath, source, names).1,
    ensures
        names1 == names2,
        match (r1, r2) {
            (Ok(a), Ok(b)) => stmt_models(a@) == stmt_models(b@),
            (Err(x), Err(y)) => x == y,
            _ => false,
        },
{
}

} // verus!
