use vstd::prelude::*;

pub mod text;

use crate::token::Token;

verus! {

#[derive(Debug, Clone, PartialEq)]
pub struct Identifier {
    pub value: String,
}

#[derive(Debug, Clone, PartialEq)]
pub struct IntegerLiteral {
    pub value: i64,
}

#[derive(Debug, Clone, PartialEq)]
pub struct BooleanLiteral {
    pub value: bool,
}

#[derive(Debug, Clone, PartialEq)]
pub struct StringLiteral {
    pub value: String,
}

#[derive(Debug, PartialEq)]
pub struct FunctionLiteral {
    /// name of the function, if it has one
    pub ident: Option<Identifier>,
    pub parameters: Vec<Identifier>,
    pub body: BlockStatement,
    /// whether the literal is the value of a `let` statement
    pub is_let_bind: bool,
}

#[derive(Debug, PartialEq)]
pub struct ArrayLiteral {
    pub elements: Vec<Expression>,
}

#[derive(Debug, PartialEq)]
pub struct PrefixExpression {
    pub token: Token,
    pub right: Box<Expression>,
}

#[derive(Debug, PartialEq)]
pub struct InfixExpression {
    pub operator: Token,
    pub left: Box<Expression>,
    pub right: Box<Expression>,
}

#[derive(Debug, PartialEq)]
pub struct IfExpression {
    pub condition: Box<Expression>,
    pub consequence: BlockStatement,
    pub alternative: Option<BlockStatement>,
}

#[derive(Debug, PartialEq)]
pub struct CallExpression {
    pub function: Box<Expression>,
    pub arguments: Vec<Expression>,
}

#[derive(Debug, PartialEq)]
pub struct IndexExpression {
    pub left: Box<Expression>,
    pub index: Box<Expression>,
}

#[derive(Debug, PartialEq)]
pub enum Expression {
    Identifier(Identifier),
    IntegerLiteral(IntegerLiteral),
    BooleanLiteral(BooleanLiteral),
    StringLiteral(StringLiteral),
    FunctionLiteral(FunctionLiteral),
    ArrayLiteral(ArrayLiteral),
    InfixExpression(InfixExpression),
    PrefixExpression(PrefixExpression),
    IfExpression(IfExpression),
    CallExpression(CallExpression),
    IndexExpression(IndexExpression),
}

#[derive(Debug, PartialEq)]
pub struct ExpressionStatement {
    pub expression: Option<Expression>,
}

#[derive(Debug, PartialEq)]
pub struct LetStatement {
    pub identifier: Identifier,
    pub value: Option<Expression>,
}

#[derive(Debug, PartialEq)]
pub struct ReturnStatement {
    pub value: Option<Expression>,
}

#[derive(Debug, PartialEq)]
pub struct BlockStatement {
    pub statements: Vec<Statement>,
}

#[derive(Debug, PartialEq)]
pub enum Statement {
    ExpressionStatement(ExpressionStatement),
    LetStatement(LetStatement),
    ReturnStatement(ReturnStatement),
    BlockStatement(BlockStatement),
}

#[derive(Debug, PartialEq)]
pub struct Program {
    pub statements: Vec<Statement>,
}

/// Two identifiers name the same thing.
pub open spec fn same_ident(a: Identifier, b: Identifier) -> bool {
    a.value@ == b.value@
}

/// Two lists of identifiers are the same, one by one.
pub open spec fn same_idents(a: Seq<Identifier>, b: Seq<Identifier>) -> bool {
    a.len() == b.len() && forall|i: int| 0 <= i < a.len() ==> same_ident(#[trigger] a[i], b[i])
}

/// Two expressions are the same tree.
pub open spec fn same_exp(a: Expression, b: Expression) -> bool
    decreases a, 0int,
{
    match (a, b) {
        (Expression::Identifier(x), Expression::Identifier(y)) => same_ident(x, y),
        (Expression::IntegerLiteral(x), Expression::IntegerLiteral(y)) => x.value == y.value,
        (Expression::BooleanLiteral(x), Expression::BooleanLiteral(y)) => x.value == y.value,
        (Expression::StringLiteral(x), Expression::StringLiteral(y)) => x.value@ == y.value@,
        (Expression::FunctionLiteral(x), Expression::FunctionLiteral(y)) => (match (x.ident, y.ident) {
            (Some(p), Some(q)) => same_ident(p, q),
            (None, None) => true,
            _ => false,
        }) && same_idents(x.parameters@, y.parameters@) && same_stms(x.body.statements@, y.body.statements@)
            && x.is_let_bind == y.is_let_bind,
        (Expression::ArrayLiteral(x), Expression::ArrayLiteral(y)) => same_exps(x.elements@, y.elements@),
        (Expression::InfixExpression(x), Expression::InfixExpression(y)) => x.operator == y.operator
            && same_exp(*x.left, *y.left) && same_exp(*x.right, *y.right),
        (Expression::PrefixExpression(x), Expression::PrefixExpression(y)) => x.token == y.token
            && same_exp(*x.right, *y.right),
        (Expression::IfExpression(x), Expression::IfExpression(y)) => same_exp(*x.condition, *y.condition)
            && same_stms(x.consequence.statements@, y.consequence.statements@) && match (
            x.alternative,
            y.alternative,
        ) {
            (Some(p), Some(q)) => same_stms(p.statements@, q.statements@),
            (None, None) => true,
            _ => false,
        },
        (Expression::CallExpression(x), Expression::CallExpression(y)) => same_exp(*x.function, *y.function)
            && same_exps(x.arguments@, y.arguments@),
        (Expression::IndexExpression(x), Expression::IndexExpression(y)) => same_exp(*x.left, *y.left)
            && same_exp(*x.index, *y.index),
        _ => false,
    }
}

/// Two lists of expressions are the same, one by one.
pub open spec fn same_exps(a: Seq<Expression>, b: Seq<Expression>) -> bool
    decreases a, 0int,
{
    a.len() == b.len() && (a.len() == 0 || (same_exp(a[0], b[0]) && same_exps(a.drop_first(), b.drop_first())))
}

/// Two statements are the same tree.
pub open spec fn same_stm(a: Statement, b: Statement) -> bool
    decreases a, 0int,
{
    match (a, b) {
        (Statement::ExpressionStatement(x), Statement::ExpressionStatement(y)) => match (x.expression, y.expression) {
            (Some(p), Some(q)) => same_exp(p, q),
            (None, None) => true,
            _ => false,
        },
        (Statement::LetStatement(x), Statement::LetStatement(y)) => same_ident(x.identifier, y.identifier)
            && match (x.value, y.value) {
            (Some(p), Some(q)) => same_exp(p, q),
            (None, None) => true,
            _ => false,
        },
        (Statement::ReturnStatement(x), Statement::ReturnStatement(y)) => match (x.value, y.value) {
            (Some(p), Some(q)) => same_exp(p, q),
            (None, None) => true,
            _ => false,
        },
        (Statement::BlockStatement(x), Statement::BlockStatement(y)) => same_stms(x.statements@, y.statements@),
        _ => false,
    }
}

/// Two lists of statements are the same, one by one.
pub open spec fn same_stms(a: Seq<Statement>, b: Seq<Statement>) -> bool
    decreases a, 0int,
{
    a.len() == b.len() && (a.len() == 0 || (same_stm(a[0], b[0]) && same_stms(a.drop_first(), b.drop_first())))
}

/// Lists are the same where they have one length and each pair is.
proof fn lemma_same_exps_each(a: Seq<Expression>, b: Seq<Expression>)
    ensures
        same_exps(a, b) == (a.len() == b.len() && forall|i: int| 0 <= i < a.len() ==> #[trigger] same_exp(a[i], b[i])),
    decreases a.len(),
{
    if a.len() > 0 && a.len() == b.len() {
        lemma_same_exps_each(a.drop_first(), b.drop_first());
        if forall|i: int| 0 <= i < a.len() ==> #[trigger] same_exp(a[i], b[i]) {
            assert forall|i: int| 0 <= i < a.drop_first().len() implies #[trigger] same_exp(
                a.drop_first()[i],
                b.drop_first()[i],
            ) by {
                assert(same_exp(a[i + 1], b[i + 1]));
            }
            assert(same_exp(a[0], b[0]));
        }
        if same_exps(a, b) {
            assert forall|i: int| 0 <= i < a.len() implies #[trigger] same_exp(a[i], b[i]) by {
                if i > 0 {
                    assert(same_exp(a.drop_first()[i - 1], b.drop_first()[i - 1]));
                }
            }
        }
    }
}

/// Lists are the same where they have one length and each pair is.
proof fn lemma_same_stms_each(a: Seq<Statement>, b: Seq<Statement>)
    ensures
        same_stms(a, b) == (a.len() == b.len() && forall|i: int| 0 <= i < a.len() ==> #[trigger] same_stm(a[i], b[i])),
    decreases a.len(),
{
    if a.len() > 0 && a.len() == b.len() {
        lemma_same_stms_each(a.drop_first(), b.drop_first());
        if forall|i: int| 0 <= i < a.len() ==> #[trigger] same_stm(a[i], b[i]) {
            assert forall|i: int| 0 <= i < a.drop_first().len() implies #[trigger] same_stm(
                a.drop_first()[i],
                b.drop_first()[i],
            ) by {
                assert(same_stm(a[i + 1], b[i + 1]));
            }
            assert(same_stm(a[0], b[0]));
        }
        if same_stms(a, b) {
            assert forall|i: int| 0 <= i < a.len() implies #[trigger] same_stm(a[i], b[i]) by {
                if i > 0 {
                    assert(same_stm(a.drop_first()[i - 1], b.drop_first()[i - 1]));
                }
            }
        }
    }
}

/// Whether two lists of identifiers are the same.
pub fn eq_idents(a: &Vec<Identifier>, b: &Vec<Identifier>) -> (res: bool)
    ensures
        res == same_idents(a@, b@),
{
    if a.len() != b.len() {
        return false;
    }
    let mut i: usize = 0;
    while i < a.len()
        invariant
            i <= a@.len(),
            a@.len() == b@.len(),
            forall|j: int| 0 <= j < i ==> same_ident(#[trigger] a@[j], b@[j]),
        decreases a@.len() - i,
    {
        if a[i].value != b[i].value {
            return false;
        }
        i = i + 1;
    }
    true
}

fn eq_opt_ident(a: &Option<Identifier>, b: &Option<Identifier>) -> (res: bool)
    ensures
        res == match (*a, *b) {
            (Some(p), Some(q)) => same_ident(p, q),
            (None, None) => true,
            _ => false,
        },
{
    match (a, b) {
        (Some(p), Some(q)) => p.value == q.value,
        (None, None) => true,
        _ => false,
    }
}

fn eq_opt_exp(a: &Option<Expression>, b: &Option<Expression>) -> (res: bool)
    ensures
        res == match (*a, *b) {
            (Some(p), Some(q)) => same_exp(p, q),
            (None, None) => true,
            _ => false,
        },
    decreases a, 1int,
{
    match (a, b) {
        (Some(p), Some(q)) => eq_exp(p, q),
        (None, None) => true,
        _ => false,
    }
}

/// Whether two expressions are the same tree.
pub fn eq_exp(a: &Expression, b: &Expression) -> (res: bool)
    ensures
        res == same_exp(*a, *b),
    decreases a, 0int,
{
    match (a, b) {
        (Expression::Identifier(x), Expression::Identifier(y)) => x.value == y.value,
        (Expression::IntegerLiteral(x), Expression::IntegerLiteral(y)) => x.value == y.value,
        (Expression::BooleanLiteral(x), Expression::BooleanLiteral(y)) => x.value == y.value,
        (Expression::StringLiteral(x), Expression::StringLiteral(y)) => x.value == y.value,
        (Expression::FunctionLiteral(x), Expression::FunctionLiteral(y)) => eq_opt_ident(&x.ident, &y.ident)
            && eq_idents(&x.parameters, &y.parameters) && eq_stms(&x.body.statements, &y.body.statements)
            && x.is_let_bind == y.is_let_bind,
        (Expression::ArrayLiteral(x), Expression::ArrayLiteral(y)) => eq_exps(&x.elements, &y.elements),
        (Expression::InfixExpression(x), Expression::InfixExpression(y)) => x.operator == y.operator && eq_exp(
            &x.left,
            &y.left,
        ) && eq_exp(&x.right, &y.right),
        (Expression::PrefixExpression(x), Expression::PrefixExpression(y)) => x.token == y.token && eq_exp(
            &x.right,
            &y.right,
        ),
        (Expression::IfExpression(x), Expression::IfExpression(y)) => eq_exp(&x.condition, &y.condition)
            && eq_stms(&x.consequence.statements, &y.consequence.statements) && match (
            &x.alternative,
            &y.alternative,
        ) {
            (Some(p), Some(q)) => eq_stms(&p.statements, &q.statements),
            (None, None) => true,
            _ => false,
        },
        (Expression::CallExpression(x), Expression::CallExpression(y)) => eq_exp(&x.function, &y.function)
            && eq_exps(&x.arguments, &y.arguments),
        (Expression::IndexExpression(x), Expression::IndexExpression(y)) => eq_exp(&x.left, &y.left) && eq_exp(
            &x.index,
            &y.index,
        ),
        _ => false,
    }
}

/// Whether two lists of expressions are the same.
pub fn eq_exps(a: &Vec<Expression>, b: &Vec<Expression>) -> (res: bool)
    ensures
        res == same_exps(a@, b@),
    decreases a@, 0int,
{
    proof {
        lemma_same_exps_each(a@, b@);
    }
    if a.len() != b.len() {
        return false;
    }
    let mut i: usize = 0;
    while i < a.len()
        invariant
            i <= a@.len(),
            a@.len() == b@.len(),
            same_exps(a@, b@) == forall|j: int| 0 <= j < a@.len() ==> #[trigger] same_exp(a@[j], b@[j]),
            forall|j: int| 0 <= j < i ==> #[trigger] same_exp(a@[j], b@[j]),
        decreases a@.len() - i,
    {
        if !eq_exp(&a[i], &b[i]) {
            return false;
        }
        i = i + 1;
    }
    true
}

/// Whether two statements are the same tree.
pub fn eq_stm(a: &Statement, b: &Statement) -> (res: bool)
    ensures
        res == same_stm(*a, *b),
    decreases a, 0int,
{
    match (a, b) {
        (Statement::ExpressionStatement(x), Statement::ExpressionStatement(y)) => eq_opt_exp(
            &x.expression,
            &y.expression,
        ),
        (Statement::LetStatement(x), Statement::LetStatement(y)) => x.identifier.value == y.identifier.value
            && eq_opt_exp(&x.value, &y.value),
        (Statement::ReturnStatement(x), Statement::ReturnStatement(y)) => eq_opt_exp(&x.value, &y.value),
        (Statement::BlockStatement(x), Statement::BlockStatement(y)) => eq_stms(&x.statements, &y.statements),
        _ => false,
    }
}

/// Whether two lists of statements are the same.
pub fn eq_stms(a: &Vec<Statement>, b: &Vec<Statement>) -> (res: bool)
    ensures
        res == same_stms(a@, b@),
    decreases a@, 0int,
{
    proof {
        lemma_same_stms_each(a@, b@);
    }
    if a.len() != b.len() {
        return false;
    }
    let mut i: usize = 0;
    while i < a.len()
        invariant
            i <= a@.len(),
            a@.len() == b@.len(),
            same_stms(a@, b@) == forall|j: int| 0 <= j < a@.len() ==> #[trigger] same_stm(a@[j], b@[j]),
            forall|j: int| 0 <= j < i ==> #[trigger] same_stm(a@[j], b@[j]),
        decreases a@.len() - i,
    {
        if !eq_stm(&a[i], &b[i]) {
            return false;
        }
        i = i + 1;
    }
    true
}

} // verus!
