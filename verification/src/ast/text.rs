//! The source text of a syntax tree: expressions fully parenthesised,
//! one statement per line, blocks in braces.
use vstd::prelude::*;

use super::{BlockStatement, Expression, Identifier, Statement};
use crate::token::Kind;
use crate::utils::{int_text, push_int};

verus! {

/// The text of an operator or keyword token; empty for tokens whose text
/// is their value (names, numbers, strings) and for the end of input.
pub open spec fn kind_text(k: Kind) -> Seq<char> {
    match k {
        Kind::Assign => "="@,
        Kind::Plus => "+"@,
        Kind::Minus => "-"@,
        Kind::Bang => "!"@,
        Kind::Product => "*"@,
        Kind::Divide => "/"@,
        Kind::Mod => "%"@,
        Kind::LT => "<"@,
        Kind::LT_OR_EQ => "<="@,
        Kind::GT => ">"@,
        Kind::GT_OR_EQ => ">="@,
        Kind::EQ => "=="@,
        Kind::NOT_EQ => "!="@,
        Kind::And => "&&"@,
        Kind::Or => "||"@,
        Kind::Bit_And => "&"@,
        Kind::Bit_Or => "|"@,
        Kind::Comma => ","@,
        Kind::Semicolon => ";"@,
        Kind::LParen => "("@,
        Kind::RParen => ")"@,
        Kind::LBrace => "{"@,
        Kind::RBrace => "}"@,
        Kind::LBracket => "["@,
        Kind::RBracket => "]"@,
        Kind::Function => "fn"@,
        Kind::Let => "let"@,
        Kind::True => "true"@,
        Kind::False => "false"@,
        Kind::If => "if"@,
        Kind::Else => "else"@,
        Kind::Return => "return"@,
        _ => Seq::empty(),
    }
}

/// The names, separated by commas.
pub open spec fn idents_text(ids: Seq<Identifier>) -> Seq<char>
    decreases ids.len(),
{
    if ids.len() == 0 {
        Seq::empty()
    } else if ids.len() == 1 {
        ids[0].value@
    } else {
        idents_text(ids.drop_last()) + ", "@ + ids.last().value@
    }
}

/// The text of an expression.
pub open spec fn exp_text(e: Expression) -> Seq<char>
    decreases e, 0int,
{
    match e {
        Expression::Identifier(id) => id.value@,
        Expression::IntegerLiteral(l) => int_text(l.value),
        Expression::BooleanLiteral(l) => if l.value {
            "true"@
        } else {
            "false"@
        },
        Expression::StringLiteral(l) => l.value@,
        Expression::FunctionLiteral(f) => "fn"@ + (match f.ident {
            Some(id) => " "@ + id.value@,
            None => Seq::empty(),
        }) + "("@ + idents_text(f.parameters@) + ") "@ + braces_text(f.body.statements@),
        Expression::ArrayLiteral(a) => "["@ + exps_text(a.elements@) + "]"@,
        Expression::InfixExpression(x) => "("@ + exp_text(*x.left) + " "@ + kind_text(x.operator.kind) + " "@
            + exp_text(*x.right) + ")"@,
        Expression::PrefixExpression(x) => "("@ + kind_text(x.token.kind) + exp_text(*x.right) + ")"@,
        Expression::IfExpression(x) => "if "@ + exp_text(*x.condition) + " "@ + braces_text(
            x.consequence.statements@,
        ) + (match x.alternative {
            Some(b) => " else "@ + braces_text(b.statements@),
            None => Seq::empty(),
        }),
        Expression::CallExpression(x) => exp_text(*x.function) + "("@ + exps_text(x.arguments@) + ")"@,
        Expression::IndexExpression(x) => "("@ + exp_text(*x.left) + "["@ + exp_text(*x.index) + "])"@,
    }
}

/// The texts of the expressions, separated by commas.
pub open spec fn exps_text(es: Seq<Expression>) -> Seq<char>
    decreases es, 0int,
{
    if es.len() == 0 {
        Seq::empty()
    } else if es.len() == 1 {
        exp_text(es[0])
    } else {
        exps_text(es.drop_last()) + ", "@ + exp_text(es.last())
    }
}

/// The text of a statement, ending its line.
pub open spec fn stm_text(s: Statement) -> Seq<char>
    decreases s, 0int,
{
    match s {
        Statement::ExpressionStatement(x) => (match x.expression {
            Some(e) => exp_text(e),
            None => Seq::empty(),
        }) + "\n"@,
        Statement::LetStatement(x) => "let "@ + x.identifier.value@ + " = "@ + (match x.value {
            Some(e) => exp_text(e),
            None => Seq::empty(),
        }) + ";\n"@,
        Statement::ReturnStatement(x) => "return"@ + (match x.value {
            Some(e) => " "@ + exp_text(e),
            None => Seq::empty(),
        }) + ";\n"@,
        Statement::BlockStatement(b) => braces_text(b.statements@) + "\n"@,
    }
}

/// The texts of the statements, one after the other.
pub open spec fn stms_text(ss: Seq<Statement>) -> Seq<char>
    decreases ss, 0int,
{
    if ss.len() == 0 {
        Seq::empty()
    } else {
        stms_text(ss.drop_last()) + stm_text(ss.last())
    }
}

/// The statements in braces, the opening brace ending its line.
pub open spec fn braces_text(ss: Seq<Statement>) -> Seq<char>
    decreases ss, 1int,
{
    "{\n"@ + stms_text(ss) + "}"@
}

fn push_kind(buf: &mut String, k: Kind)
    ensures
        final(buf)@ == old(buf)@ + kind_text(k),
{
    let t: &str = match k {
        Kind::Assign => "=",
        Kind::Plus => "+",
        Kind::Minus => "-",
        Kind::Bang => "!",
        Kind::Product => "*",
        Kind::Divide => "/",
        Kind::Mod => "%",
        Kind::LT => "<",
        Kind::LT_OR_EQ => "<=",
        Kind::GT => ">",
        Kind::GT_OR_EQ => ">=",
        Kind::EQ => "==",
        Kind::NOT_EQ => "!=",
        Kind::And => "&&",
        Kind::Or => "||",
        Kind::Bit_And => "&",
        Kind::Bit_Or => "|",
        Kind::Comma => ",",
        Kind::Semicolon => ";",
        Kind::LParen => "(",
        Kind::RParen => ")",
        Kind::LBrace => "{",
        Kind::RBrace => "}",
        Kind::LBracket => "[",
        Kind::RBracket => "]",
        Kind::Function => "fn",
        Kind::Let => "let",
        Kind::True => "true",
        Kind::False => "false",
        Kind::If => "if",
        Kind::Else => "else",
        Kind::Return => "return",
        _ => "",
    };
    proof {
        reveal_strlit("");
    }
    assert(t@ == kind_text(k));
    buf.append(t);
}

fn push_idents(buf: &mut String, ids: &Vec<Identifier>)
    ensures
        final(buf)@ == old(buf)@ + idents_text(ids@),
{
    proof {
        reveal_strlit(", ");
    }
    let ghost start = buf@;
    let mut i: usize = 0;
    while i < ids.len()
        invariant
            i <= ids@.len(),
            start == old(buf)@,
            buf@ == start + idents_text(ids@.subrange(0, i as int)),
        decreases ids@.len() - i,
    {
        let ghost before = buf@;
        if i > 0 {
            buf.append(", ");
        }
        buf.append(ids[i].value.as_str());
        proof {
            let t = ids@.subrange(0, i + 1);
            assert(t.drop_last() =~= ids@.subrange(0, i as int));
            assert(t.last() == ids@[i as int]);
        }
        assert(buf@ =~= start + idents_text(ids@.subrange(0, i + 1)));
        i = i + 1;
    }
    assert(ids@.subrange(0, ids@.len() as int) =~= ids@);
}

/// Append the text of an expression.
pub fn push_exp(buf: &mut String, e: &Expression)
    ensures
        final(buf)@ == old(buf)@ + exp_text(*e),
    decreases e, 0int,
{
    proof {
        reveal_strlit("true");
        reveal_strlit("false");
        reveal_strlit("fn");
        reveal_strlit(" ");
        reveal_strlit("(");
        reveal_strlit(") ");
        reveal_strlit(")");
        reveal_strlit("[");
        reveal_strlit("]");
        reveal_strlit("])");
        reveal_strlit("if ");
        reveal_strlit(" else ");
    }
    let ghost start = buf@;
    match e {
        Expression::Identifier(id) => buf.append(id.value.as_str()),
        Expression::IntegerLiteral(l) => push_int(buf, l.value),
        Expression::BooleanLiteral(l) => if l.value {
            buf.append("true");
        } else {
            buf.append("false");
        },
        Expression::StringLiteral(l) => buf.append(l.value.as_str()),
        Expression::FunctionLiteral(f) => {
            buf.append("fn");
            if let Some(id) = &f.ident {
                buf.append(" ");
                buf.append(id.value.as_str());
            }
            buf.append("(");
            push_idents(buf, &f.parameters);
            buf.append(") ");
            push_braces(buf, &f.body.statements);
        },
        Expression::ArrayLiteral(a) => {
            buf.append("[");
            push_exps(buf, &a.elements);
            buf.append("]");
        },
        Expression::InfixExpression(x) => {
            buf.append("(");
            push_exp(buf, &x.left);
            buf.append(" ");
            push_kind(buf, x.operator.kind);
            buf.append(" ");
            push_exp(buf, &x.right);
            buf.append(")");
        },
        Expression::PrefixExpression(x) => {
            buf.append("(");
            push_kind(buf, x.token.kind);
            push_exp(buf, &x.right);
            buf.append(")");
        },
        Expression::IfExpression(x) => {
            buf.append("if ");
            push_exp(buf, &x.condition);
            buf.append(" ");
            push_braces(buf, &x.consequence.statements);
            if let Some(b) = &x.alternative {
                buf.append(" else ");
                push_braces(buf, &b.statements);
            }
        },
        Expression::CallExpression(x) => {
            push_exp(buf, &x.function);
            buf.append("(");
            push_exps(buf, &x.arguments);
            buf.append(")");
        },
        Expression::IndexExpression(x) => {
            buf.append("(");
            push_exp(buf, &x.left);
            buf.append("[");
            push_exp(buf, &x.index);
            buf.append("])");
        },
    }
    assert(buf@ =~= start + exp_text(*e));
}

/// Append the texts of the expressions, separated by commas.
pub fn push_exps(buf: &mut String, es: &Vec<Expression>)
    ensures
        final(buf)@ == old(buf)@ + exps_text(es@),
    decreases es@, 0int,
{
    proof {
        reveal_strlit(", ");
    }
    let ghost start = buf@;
    let mut i: usize = 0;
    while i < es.len()
        invariant
            i <= es@.len(),
            start == old(buf)@,
            buf@ == start + exps_text(es@.subrange(0, i as int)),
        decreases es@.len() - i,
    {
        if i > 0 {
            buf.append(", ");
        }
        push_exp(buf, &es[i]);
        proof {
            let t = es@.subrange(0, i + 1);
            assert(t.drop_last() =~= es@.subrange(0, i as int));
            assert(t.last() == es@[i as int]);
        }
        assert(buf@ =~= start + exps_text(es@.subrange(0, i + 1)));
        i = i + 1;
    }
    assert(es@.subrange(0, es@.len() as int) =~= es@);
}

/// Append the text of a statement.
pub fn push_stm(buf: &mut String, s: &Statement)
    ensures
        final(buf)@ == old(buf)@ + stm_text(*s),
    decreases s, 0int,
{
    proof {
        reveal_strlit("\n");
        reveal_strlit("let ");
        reveal_strlit(" = ");
        reveal_strlit(";\n");
        reveal_strlit("return");
        reveal_strlit(" ");
    }
    let ghost start = buf@;
    match s {
        Statement::ExpressionStatement(x) => {
            if let Some(e) = &x.expression {
                push_exp(buf, e);
            }
            buf.append("\n");
        },
        Statement::LetStatement(x) => {
            buf.append("let ");
            buf.append(x.identifier.value.as_str());
            buf.append(" = ");
            if let Some(e) = &x.value {
                push_exp(buf, e);
            }
            buf.append(";\n");
        },
        Statement::ReturnStatement(x) => {
            buf.append("return");
            if let Some(e) = &x.value {
                buf.append(" ");
                push_exp(buf, e);
            }
            buf.append(";\n");
        },
        Statement::BlockStatement(b) => {
            push_braces(buf, &b.statements);
            buf.append("\n");
        },
    }
    assert(buf@ =~= start + stm_text(*s));
}

/// Append the texts of the statements.
pub fn push_stms(buf: &mut String, ss: &Vec<Statement>)
    ensures
        final(buf)@ == old(buf)@ + stms_text(ss@),
    decreases ss@, 0int,
{
    let ghost start = buf@;
    let mut i: usize = 0;
    while i < ss.len()
        invariant
            i <= ss@.len(),
            start == old(buf)@,
            buf@ == start + stms_text(ss@.subrange(0, i as int)),
        decreases ss@.len() - i,
    {
        push_stm(buf, &ss[i]);
        proof {
            let t = ss@.subrange(0, i + 1);
            assert(t.drop_last() =~= ss@.subrange(0, i as int));
            assert(t.last() == ss@[i as int]);
        }
        assert(buf@ =~= start + stms_text(ss@.subrange(0, i + 1)));
        i = i + 1;
    }
    assert(ss@.subrange(0, ss@.len() as int) =~= ss@);
}

/// Append the statements in braces.
pub fn push_braces(buf: &mut String, ss: &Vec<Statement>)
    ensures
        final(buf)@ == old(buf)@ + braces_text(ss@),
    decreases ss@, 1int,
{
    proof {
        reveal_strlit("{\n");
        reveal_strlit("}");
    }
    let ghost start = buf@;
    buf.append("{\n");
    push_stms(buf, ss);
    buf.append("}");
    assert(buf@ =~= start + braces_text(ss@));
}

impl BlockStatement {
    /// The text of the block: its statements, one after the other.
    pub fn to_str(&self) -> (res: String)
        ensures
            res@ == stms_text(self.statements@),
    {
        let mut buf = String::new();
        push_stms(&mut buf, &self.statements);
        assert(buf@ =~= stms_text(self.statements@));
        buf
    }
}

} // verus!
