use crate::ast::{
    Ast, AstExpression, AstExpressionKind, AstKind, AstPattern, AstPatternKind, BinaryOperator,
};
use crate::interning::{InternedStr, Interner};
use crate::lexer::{Token, TokenKind};
use vstd::prelude::*;
use vstd::string::StringExecFns;

verus! {

/// Four spaces for each level.
pub open spec fn indent_text(n: nat) -> Seq<char>
    decreases n,
{
    if n == 0 {
        Seq::empty()
    } else {
        indent_text((n - 1) as nat) + "    "@
    }
}

pub open spec fn operator_text(op: BinaryOperator) -> Seq<char> {
    match op {
        BinaryOperator::Add => "+"@,
        BinaryOperator::Subtract => "-"@,
        BinaryOperator::Multiply => "*"@,
        BinaryOperator::Divide => "/"@,
    }
}

/// The decimal digits of `v`, without leading zeros.
pub open spec fn decimal(v: nat) -> Seq<char>
    decreases v,
{
    let d = seq![(('0' as u32) + (v % 10) as u32) as char];
    if v < 10 {
        d
    } else {
        decimal(v / 10) + d
    }
}

/// The text of a name; nothing where the interner holds no such key.
pub open spec fn name_text(names: Seq<Seq<char>>, n: InternedStr) -> Seq<char> {
    if (n.index as int) < names.len() {
        names[n.index as int]
    } else {
        Seq::empty()
    }
}

pub open spec fn token_name(names: Seq<Seq<char>>, t: Token) -> Seq<char> {
    match t.kind {
        TokenKind::Name(n) => name_text(names, n),
        _ => Seq::empty(),
    }
}

pub open spec fn deeper(indent: usize) -> usize {
    if indent < usize::MAX {
        (indent + 1) as usize
    } else {
        indent
    }
}

/// An expression as text: binary expressions in parentheses, a block's
/// statements one per line, one level deeper than `indent`.
pub open spec fn render_expression(e: AstExpression, indent: usize, names: Seq<Seq<char>>) -> Seq<char>
    decreases e, 0int,
{
    match e.kind {
        AstExpressionKind::Name(n) => name_text(names, n),
        AstExpressionKind::Integer(v) => decimal(v as nat),
        AstExpressionKind::Binary { left, operator, right } => "("@ + render_expression(
            *left,
            indent,
            names,
        ) + " "@ + operator_text(operator) + " "@ + render_expression(*right, indent, names)
            + ")"@,
        AstExpressionKind::Block { statements, .. } => "{\n"@ + render_statements(
            statements,
            0,
            deeper(indent),
            names,
        ) + indent_text(indent as nat) + "}"@,
        AstExpressionKind::Call { operand, arguments, .. } => render_expression(
            *operand,
            indent,
            names,
        ) + "("@ + render_arguments(arguments, 0, indent, names) + ")"@,
    }
}

/// The statements from index `k` on.
pub open spec fn render_statements(v: Vec<Ast>, k: int, indent: usize, names: Seq<Seq<char>>) -> Seq<
    char,
>
    decreases v, v.len() - k,
{
    if 0 <= k < v.len() {
        render_ast(v[k], indent, names) + render_statements(v, k + 1, indent, names)
    } else {
        Seq::empty()
    }
}

/// The arguments from index `k` on, separated by `, `.
pub open spec fn render_arguments(
    v: Vec<AstExpression>,
    k: int,
    indent: usize,
    names: Seq<Seq<char>>,
) -> Seq<char>
    decreases v, v.len() - k,
{
    if 0 <= k < v.len() {
        (if k > 0 {
            ", "@
        } else {
            Seq::empty()
        }) + render_expression(v[k], indent, names) + render_arguments(v, k + 1, indent, names)
    } else {
        Seq::empty()
    }
}

/// The parameters from index `k` on, separated by `, `.
pub open spec fn render_parameters(
    v: Vec<AstPattern>,
    k: int,
    indent: usize,
    names: Seq<Seq<char>>,
) -> Seq<char>
    decreases v, v.len() - k,
{
    if 0 <= k < v.len() {
        (if k > 0 {
            ", "@
        } else {
            Seq::empty()
        }) + render_pattern(v[k], indent, names) + render_parameters(v, k + 1, indent, names)
    } else {
        Seq::empty()
    }
}

pub open spec fn render_pattern(p: AstPattern, indent: usize, names: Seq<Seq<char>>) -> Seq<char>
    decreases p, 0int,
{
    match p.kind {
        AstPatternKind::Let { name_token, typ } => token_name(names, name_token) + match typ {
            Some(t) => ": "@ + render_expression(t, indent, names),
            None => Seq::empty(),
        },
    }
}

/// A statement as a line of text (several for a function), indented by
/// `indent` levels.
pub open spec fn render_ast(a: Ast, indent: usize, names: Seq<Seq<char>>) -> Seq<char>
    decreases a, 0int,
{
    indent_text(indent as nat) + match a.kind {
        AstKind::Expression(e) => render_expression(e, indent, names) + ";\n"@,
        AstKind::Let { pattern, value, .. } => "let "@ + render_pattern(
            pattern,
            indent,
            names,
        ) + " = "@ + render_expression(*value, indent, names) + ";\n"@,
        AstKind::Function { name, arguments, return_type, body } => "fn "@ + token_name(
            names,
            name,
        ) + "("@ + render_parameters(arguments, 0, indent, names) + ")"@ + match return_type {
            Some(t) => " -> "@ + render_expression(*t, indent, names),
            None => Seq::empty(),
        } + " "@ + render_expression(body, indent, names) + "\n"@,
        AstKind::Return { expression } => "return "@ + render_expression(
            expression,
            indent,
            names,
        ) + ";\n"@,
    }
}

/// Relies on `u64`'s `to_string`: its decimal digits, with no sign and no
/// leading zeros.
#[verifier::external_body]
fn decimal_text(v: u64) -> (r: String)
    ensures
        r@ == decimal(v as nat),
{
    v.to_string()
}

fn print_indent(indent: usize, out: &mut String)
    ensures
        final(out)@ == old(out)@ + indent_text(indent as nat),
{
    let mut i: usize = 0;
    while i < indent
        invariant
            i <= indent,
            out@ == old(out)@ + indent_text(i as nat),
        decreases indent - i,
    {
        out.append("    ");
        i = i + 1;
        assert(out@ =~= old(out)@ + indent_text(i as nat));
    }
}

fn print_name(name: InternedStr, interner: &Interner, out: &mut String)
    requires
        interner.wf(),
    ensures
        final(out)@ == old(out)@ + name_text(interner.strings(), name),
{
    match interner.lookup(name) {
        Some(text) => out.append(text),
        None => {
            assert(out@ =~= old(out)@ + Seq::<char>::empty());
        },
    }
}

/// Appends `expression` as text to `out`, as `render_expression` says.
pub fn pretty_print_ast_expression(
    expression: &AstExpression,
    indent: usize,
    interner: &Interner,
    out: &mut String,
)
    requires
        interner.wf(),
    ensures
        final(out)@ == old(out)@ + render_expression(*expression, indent, interner.strings()),
    decreases *expression,
{
    let ghost names = interner.strings();
    let ghost start = out@;
    match &expression.kind {
        AstExpressionKind::Name(name) => print_name(*name, interner, out),
        AstExpressionKind::Integer(value) => {
            let text = decimal_text(*value);
            out.append(text.as_str());
        },
        AstExpressionKind::Binary { left, operator, right } => {
            out.append("(");
            pretty_print_ast_expression(left, indent, interner, out);
            out.append(" ");
            match operator {
                BinaryOperator::Add => out.append("+"),
                BinaryOperator::Subtract => out.append("-"),
                BinaryOperator::Multiply => out.append("*"),
                BinaryOperator::Divide => out.append("/"),
            }
            out.append(" ");
            pretty_print_ast_expression(right, indent, interner, out);
            out.append(")");
            assert(out@ =~= start + render_expression(*expression, indent, names));
        },
        AstExpressionKind::Block { statements, close_brace } => {
            out.append("{\n");
            let inner = if indent < usize::MAX {
                indent + 1
            } else {
                indent
            };
            let ghost base = out@;
            let mut i: usize = 0;
            while i < statements.len()
                invariant
                    interner.wf(),
                    names == interner.strings(),
                    inner == deeper(indent),
                    i <= statements.len(),
                    expression.kind == (AstExpressionKind::Block {
                        statements: *statements,
                        close_brace: *close_brace,
                    }),
                    base + render_statements(*statements, 0, inner, names) == out@
                        + render_statements(*statements, i as int, inner, names),
                decreases statements.len() - i,
            {
                let ghost before = out@;
                proof {
                    vstd::std_specs::vec::axiom_vec_index_decreases(*statements, i as int);
                    assert(decreases_to!(expression.kind => (expression.kind)->statements));
                }
                pretty_print_ast(&statements[i], inner, interner, out);
                assert(before + render_statements(*statements, i as int, inner, names) =~= out@
                    + render_statements(*statements, i + 1, inner, names));
                i = i + 1;
            }
            print_indent(indent, out);
            out.append("}");
            assert(out@ =~= start + render_expression(*expression, indent, names));
        },
        AstExpressionKind::Call { operand, arguments, close_parenthesis } => {
            pretty_print_ast_expression(operand, indent, interner, out);
            out.append("(");
            let ghost base = out@;
            let mut i: usize = 0;
            while i < arguments.len()
                invariant
                    interner.wf(),
                    names == interner.strings(),
                    i <= arguments.len(),
                    expression.kind == (AstExpressionKind::Call {
                        operand: *operand,
                        arguments: *arguments,
                        close_parenthesis: *close_parenthesis,
                    }),
                    base + render_arguments(*arguments, 0, indent, names) == out@ + render_arguments(
                        *arguments,
                        i as int,
                        indent,
                        names,
                    ),
                decreases arguments.len() - i,
            {
                let ghost before = out@;
                if i > 0 {
                    out.append(", ");
                }
                proof {
                    vstd::std_specs::vec::axiom_vec_index_decreases(*arguments, i as int);
                    assert(decreases_to!(expression.kind => (expression.kind)->arguments));
                }
                pretty_print_ast_expression(&arguments[i], indent, interner, out);
                assert(before + render_arguments(*arguments, i as int, indent, names) =~= out@
                    + render_arguments(*arguments, i + 1, indent, names));
                i = i + 1;
            }
            out.append(")");
            assert(out@ =~= start + render_expression(*expression, indent, names));
        },
    }
}

/// Appends `pattern` as text to `out`, as `render_pattern` says.
pub fn pretty_print_ast_pattern(pattern: &AstPattern, indent: usize, interner: &Interner, out: &mut String)
    requires
        interner.wf(),
    ensures
        final(out)@ == old(out)@ + render_pattern(*pattern, indent, interner.strings()),
    decreases *pattern,
{
    let ghost names = interner.strings();
    let ghost start = out@;
    match &pattern.kind {
        AstPatternKind::Let { name_token, typ } => {
            if let TokenKind::Name(name) = name_token.kind {
                print_name(name, interner, out);
            }
            if let Some(typ) = typ {
                out.append(": ");
                pretty_print_ast_expression(typ, indent, interner, out);
            }
            assert(out@ =~= start + render_pattern(*pattern, indent, names));
        },
    }
}

/// Appends `ast` as text to `out`, as `render_ast` says.
#[verifier::rlimit(50)]
pub fn pretty_print_ast(ast: &Ast, indent: usize, interner: &Interner, out: &mut String)
    requires
        interner.wf(),
    ensures
        final(out)@ == old(out)@ + render_ast(*ast, indent, interner.strings()),
    decreases *ast,
{
    let ghost names = interner.strings();
    let ghost start = out@;
    print_indent(indent, out);
    match &ast.kind {
        AstKind::Expression(expression) => {
            pretty_print_ast_expression(expression, indent, interner, out);
            out.append(";\n");
            assert(out@ =~= start + render_ast(*ast, indent, names));
        },
        AstKind::Let { pattern, value, .. } => {
            out.append("let ");
            pretty_print_ast_pattern(pattern, indent, interner, out);
            out.append(" = ");
            pretty_print_ast_expression(value, indent, interner, out);
            out.append(";\n");
            assert(out@ =~= start + render_ast(*ast, indent, names));
        },
        AstKind::Function { name, arguments, return_type, body } => {
            out.append("fn ");
            if let TokenKind::Name(n) = name.kind {
                print_name(n, interner, out);
            }
            out.append("(");
            let ghost base = out@;
            let mut i: usize = 0;
            while i < arguments.len()
                invariant
                    interner.wf(),
                    names == interner.strings(),
                    i <= arguments.len(),
                    ast.kind == (AstKind::Function {
                        name: *name,
                        arguments: *arguments,
                        return_type: *return_type,
                        body: *body,
                    }),
                    base + render_parameters(*arguments, 0, indent, names) == out@
                        + render_parameters(*arguments, i as int, indent, names),
                decreases arguments.len() - i,
            {
                let ghost before = out@;
                if i > 0 {
                    out.append(", ");
                }
                proof {
                    vstd::std_specs::vec::axiom_vec_index_decreases(*arguments, i as int);
                    assert(decreases_to!(ast.kind => (ast.kind)->arguments));
                }
                pretty_print_ast_pattern(&arguments[i], indent, interner, out);
                assert(before + render_parameters(*arguments, i as int, indent, names) =~= out@
                    + render_parameters(*arguments, i + 1, indent, names));
                i = i + 1;
            }
            out.append(")");
            let ghost head = out@;
            assert(head =~= start + indent_text(indent as nat) + "fn "@ + token_name(names, *name)
                + "("@ + render_parameters(*arguments, 0, indent, names) + ")"@);
            if let Some(return_type) = return_type {
                out.append(" -> ");
                pretty_print_ast_expression(return_type, indent, interner, out);
            }
            let ghost typed = out@;
            assert(typed =~= head + match *return_type {
                Some(t) => " -> "@ + render_expression(*t, indent, names),
                None => Seq::empty(),
            });
            out.append(" ");
            pretty_print_ast_expression(body, indent, interner, out);
            out.append("\n");
            assert(out@ =~= start + render_ast(*ast, indent, names));
        },
        AstKind::Return { expression } => {
            out.append("return ");
            pretty_print_ast_expression(expression, indent, interner, out);
            out.append(";\n");
            assert(out@ =~= start + render_ast(*ast, indent, names));
        },
    }
}

} // verus!
