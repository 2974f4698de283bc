use fipe::ast::{
    BlockStatement, CallExpression, Expression, ExpressionStatement, FunctionLiteral, Identifier,
    InfixExpression, IntegerLiteral, Program, Statement,
};
use fipe::bytecode_vm::bytecode::compiler::Compiler;
use fipe::bytecode_vm::vm::VM;
use fipe::object::{Int, Object};
use fipe::token::{Kind, Token};

fn ident(name: &str) -> Identifier {
    Identifier { value: name.to_string() }
}

fn ident_exp(name: &str) -> Expression {
    Expression::Identifier(ident(name))
}

fn int_exp(v: i64) -> Expression {
    Expression::IntegerLiteral(IntegerLiteral { value: v })
}

fn exp_stm(e: Expression) -> Statement {
    Statement::ExpressionStatement(ExpressionStatement { expression: Some(e) })
}

/// `fn add(x, y) { x + y }; add(20, 22)`
fn add_program() -> Program {
    let body = BlockStatement {
        statements: vec![exp_stm(Expression::InfixExpression(InfixExpression {
            operator: Token { kind: Kind::Plus },
            left: Box::new(ident_exp("x")),
            right: Box::new(ident_exp("y")),
        }))],
    };
    let add = FunctionLiteral {
        ident: Some(ident("add")),
        parameters: vec![ident("x"), ident("y")],
        body,
        is_let_bind: false,
    };
    let call = CallExpression {
        function: Box::new(ident_exp("add")),
        arguments: vec![int_exp(20), int_exp(22)],
    };
    Program {
        statements: vec![
            exp_stm(Expression::FunctionLiteral(add)),
            exp_stm(Expression::CallExpression(call)),
        ],
    }
}

fn run(program: Program) -> VM {
    let mut compiler = Compiler::create().unwrap();
    compiler.compile(program).unwrap();
    let mut vm = VM::new(compiler.bytecode().unwrap());
    while vm.is_runable() {
        vm.run_single().unwrap();
    }
    vm
}

#[test]
fn readme_add_gives_42() {
    let vm = run(add_program());
    assert_eq!(vm.last_pop(), &Some(Object::Int(Int { value: 42 })));
}

