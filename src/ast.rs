use crate::interning::InternedStr;
use crate::lexer::{Location, Token, TokenKind};
use vstd::prelude::*;

verus! {

/// A statement.
#[derive(PartialEq, Eq, Debug)]
pub enum AstKind {
    Expression(AstExpression),
    Let { pattern: AstPattern, equals: Location, value: Box<AstExpression> },
    Function {
        name: Token,
        arguments: Vec<AstPattern>,
        return_type: Option<Box<AstExpression>>,
        body: AstExpression,
    },
    Return { expression: AstExpression },
}

#[derive(PartialEq, Eq, Debug)]
pub struct Ast {
    pub kind: AstKind,
    pub location: Location,
}

#[derive(Clone, Copy, PartialEq, Eq, Structural, Debug)]
pub enum BinaryOperator {
    Add,
    Subtract,
    Multiply,
    Divide,
}

/// The operator that a token stands for, if any.
pub open spec fn operator_of(kind: TokenKind) -> Option<BinaryOperator> {
    match kind {
        TokenKind::Plus => Some(BinaryOperator::Add),
        TokenKind::Minus => Some(BinaryOperator::Subtract),
        TokenKind::Asterisk => Some(BinaryOperator::Multiply),
        TokenKind::Slash => Some(BinaryOperator::Divide),
        _ => None,
    }
}

/// How tightly an operator binds: `*` and `/` above `+` and `-`.
pub open spec fn precedence_of(op: BinaryOperator) -> u8 {
    match op {
        BinaryOperator::Multiply | BinaryOperator::Divide => 2,
        BinaryOperator::Add | BinaryOperator::Subtract => 1,
    }
}

impl BinaryOperator {
    pub fn from_token_kind(kind: TokenKind) -> (r: Option<BinaryOperator>)
        ensures
            r == operator_of(kind),
    {
        match kind {
            TokenKind::Plus => Some(BinaryOperator::Add),
            TokenKind::Minus => Some(BinaryOperator::Subtract),
            TokenKind::Asterisk => Some(BinaryOperator::Multiply),
            TokenKind::Slash => Some(BinaryOperator::Divide),
            _ => None,
        }
    }

    /// The operator's precedence, never 0: a higher one binds tighter.
    pub fn precedence(&self) -> (r: u8)
        ensures
            r == precedence_of(*self),
            r >= 1,
    {
        match *self {
            BinaryOperator::Multiply | BinaryOperator::Divide => 2,
            BinaryOperator::Add | BinaryOperator::Subtract => 1,
        }
    }
}

#[derive(PartialEq, Eq, Debug)]
pub enum AstExpressionKind {
    Name(InternedStr),
    Integer(u64),
    Binary { left: Box<AstExpression>, operator: BinaryOperator, right: Box<AstExpression> },
    Block { statements: Vec<Ast>, close_brace: Location },
    Call { operand: Box<AstExpression>, arguments: Vec<AstExpression>, close_parenthesis: Location },
}

#[derive(PartialEq, Eq, Debug)]
pub struct AstExpression {
    pub kind: AstExpressionKind,
    pub location: Location,
}

#[derive(PartialEq, Eq, Debug)]
pub enum AstPatternKind {
    Let { name_token: Token, typ: Option<AstExpression> },
}

#[derive(PartialEq, Eq, Debug)]
pub struct AstPattern {
    pub kind: AstPatternKind,
    pub location: Location,
}

/// The mathematical form of an expression: the same tree, with sequences in place
/// of vectors.
pub enum ExprModel {
    Name(InternedStr, Location),
    Integer(u64, Location),
    Binary(Box<ExprModel>, BinaryOperator, Box<ExprModel>, Location),
    /// Statements, closing brace, opening brace.
    Block(Seq<StmtModel>, Location, Location),
    /// Operand, arguments, closing parenthesis, opening parenthesis.
    Call(Box<ExprModel>, Seq<ExprModel>, Location, Location),
}

/// The mathematical form of a pattern: name token, type, location.
pub struct PatternModel {
    pub name: Token,
    pub typ: Option<ExprModel>,
    pub location: Location,
}

/// The mathematical form of a statement; the last field is its location.
pub enum StmtModel {
    Expression(ExprModel, Location),
    /// Pattern, location of `=`, value.
    Let(PatternModel, Location, ExprModel, Location),
    /// Name token, parameters, return type, body.
    Function(Token, Seq<PatternModel>, Option<ExprModel>, ExprModel, Location),
    Return(ExprModel, Location),
}

pub open spec fn expr_model(e: AstExpression) -> ExprModel
    decreases e,
{
    match e.kind {
        AstExpressionKind::Name(n) => ExprModel::Name(n, e.location),
        AstExpressionKind::Integer(v) => ExprModel::Integer(v, e.location),
        AstExpressionKind::Binary { left, operator, right } => ExprModel::Binary(
            Box::new(expr_model(*left)),
            operator,
            Box::new(expr_model(*right)),
            e.location,
        ),
        AstExpressionKind::Block { statements, close_brace } => ExprModel::Block(
            Seq::new(
                statements.len() as nat,
                |i: int|
                    if 0 <= i < statements.len() {
                        stmt_model(statements[i])
                    } else {
                        arbitrary()
                    },
            ),
            close_brace,
            e.location,
        ),
        AstExpressionKind::Call { operand, arguments, close_parenthesis } => ExprModel::Call(
            Box::new(expr_model(*operand)),
            Seq::new(
                arguments.len() as nat,
                |i: int|
                    if 0 <= i < arguments.len() {
                        expr_model(arguments[i])
                    } else {
                        arbitrary()
                    },
            ),
            close_parenthesis,
            e.location,
        ),
    }
}

pub open spec fn pattern_model(p: AstPattern) -> PatternModel
    decreases p,
{
    match p.kind {
        AstPatternKind::Let { name_token, typ } => PatternModel {
            name: name_token,
            typ: match typ {
                Some(t) => Some(expr_model(t)),
                None => None,
            },
            location: p.location,
        },
    }
}

pub open spec fn stmt_model(a: Ast) -> StmtModel
    decreases a,
{
    match a.kind {
        AstKind::Expression(e) => StmtModel::Expression(expr_model(e), a.location),
        AstKind::Let { pattern, equals, value } => StmtModel::Let(
            pattern_model(pattern),
            equals,
            expr_model(*value),
            a.location,
        ),
        AstKind::Function { name, arguments, return_type, body } => StmtModel::Function(
            name,
            Seq::new(
                arguments.len() as nat,
                |i: int|
                    if 0 <= i < arguments.len() {
                        pattern_model(arguments[i])
                    } else {
                        arbitrary()
                    },
            ),
            match return_type {
                Some(t) => Some(expr_model(*t)),
                None => None,
            },
            expr_model(body),
            a.location,
        ),
        AstKind::Return { expression } => StmtModel::Return(expr_model(expression), a.location),
    }
}

pub open spec fn expr_models(v: Seq<AstExpression>) -> Seq<ExprModel> {
    Seq::new(v.len(), |i: int| expr_model(v[i]))
}

pub open spec fn stmt_models(v: Seq<Ast>) -> Seq<StmtModel> {
    Seq::new(v.len(), |i: int| stmt_model(v[i]))
}

pub open spec fn pattern_models(v: Seq<AstPattern>) -> Seq<PatternModel> {
    Seq::new(v.len(), |i: int| pattern_model(v[i]))
}

pub proof fn lemma_call_model(
    operand: AstExpression,
    arguments: Vec<AstExpression>,
    close_parenthesis: Location,
    location: Location,
)
    ensures
        expr_model(
            AstExpression {
                kind: AstExpressionKind::Call {
                    operand: Box::new(operand),
                    arguments,
                    close_parenthesis,
                },
                location,
            },
        ) == ExprModel::Call(
            Box::new(expr_model(operand)),
            expr_models(arguments@),
            close_parenthesis,
            location,
        ),
{
    let e = AstExpression {
        kind: AstExpressionKind::Call { operand: Box::new(operand), arguments, close_parenthesis },
        location,
    };
    if let ExprModel::Call(_, args, _, _) = expr_model(e) {
        assert(args =~= expr_models(arguments@));
    }
}

pub proof fn lemma_block_model(statements: Vec<Ast>, close_brace: Location, location: Location)
    ensures
        expr_model(
            AstExpression { kind: AstExpressionKind::Block { statements, close_brace }, location },
        ) == ExprModel::Block(stmt_models(statements@), close_brace, location),
{
    let e = AstExpression { kind: AstExpressionKind::Block { statements, close_brace }, location };
    if let ExprModel::Block(stmts, _, _) = expr_model(e) {
        assert(stmts =~= stmt_models(statements@));
    }
}

pub proof fn lemma_function_model(
    name: Token,
    arguments: Vec<AstPattern>,
    return_type: Option<Box<AstExpression>>,
    body: AstExpression,
    location: Location,
)
    ensures
        stmt_model(
            Ast { kind: AstKind::Function { name, arguments, return_type, body }, location },
        ) == StmtModel::Function(
            name,
            pattern_models(arguments@),
            match return_type {
                Some(t) => Some(expr_model(*t)),
                None => None,
            },
            expr_model(body),
            location,
        ),
{
    let a = Ast { kind: AstKind::Function { name, arguments, return_type, body }, location };
    if let StmtModel::Function(_, params, _, _, _) = stmt_model(a) {
        assert(params =~= pattern_models(arguments@));
    }
}

} // verus!
