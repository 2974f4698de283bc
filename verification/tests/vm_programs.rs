use fipe::ast::{
    ArrayLiteral, BlockStatement, BooleanLiteral, CallExpression, Expression, ExpressionStatement,
    FunctionLiteral, Identifier, IfExpression, IndexExpression, InfixExpression, IntegerLiteral,
    LetStatement, PrefixExpression, Program, ReturnStatement, Statement, StringLiteral,
};
use fipe::bytecode_vm::bytecode::compiler::{compilable, Compiler};
use fipe::bytecode_vm::repl::{stepping_action, StepAction, StepInput};
use fipe::bytecode_vm::vm::errors::VmError;
use fipe::bytecode_vm::vm::VM;
use fipe::object::{Array, Bool, Int, Object, StringObject};
use fipe::token::{Kind, Token};

fn ident(name: &str) -> Identifier {
    Identifier { value: name.to_string() }
}

fn id(name: &str) -> Expression {
    Expression::Identifier(ident(name))
}

fn num(v: i64) -> Expression {
    Expression::IntegerLiteral(IntegerLiteral { value: v })
}

fn boolean(v: bool) -> Expression {
    Expression::BooleanLiteral(BooleanLiteral { value: v })
}

fn string(v: &str) -> Expression {
    Expression::StringLiteral(StringLiteral { value: v.to_string() })
}

fn infix(kind: Kind, l: Expression, r: Expression) -> Expression {
    Expression::InfixExpression(InfixExpression {
        operator: Token { kind },
        left: Box::new(l),
        right: Box::new(r),
    })
}

fn prefix(kind: Kind, r: Expression) -> Expression {
    Expression::PrefixExpression(PrefixExpression { token: Token { kind }, right: Box::new(r) })
}

fn exp(e: Expression) -> Statement {
    Statement::ExpressionStatement(ExpressionStatement { expression: Some(e) })
}

fn let_(name: &str, e: Expression) -> Statement {
    Statement::LetStatement(LetStatement { identifier: ident(name), value: Some(e) })
}

fn ret(e: Expression) -> Statement {
    Statement::ReturnStatement(ReturnStatement { value: Some(e) })
}

fn block(stms: Vec<Statement>) -> BlockStatement {
    BlockStatement { statements: stms }
}

fn if_(c: Expression, t: Vec<Statement>, e: Option<Vec<Statement>>) -> Expression {
    Expression::IfExpression(IfExpression {
        condition: Box::new(c),
        consequence: block(t),
        alternative: e.map(block),
    })
}

fn func(name: Option<&str>, params: &[&str], body: Vec<Statement>, is_let_bind: bool) -> Expression {
    Expression::FunctionLiteral(FunctionLiteral {
        ident: name.map(ident),
        parameters: params.iter().map(|p| ident(p)).collect(),
        body: block(body),
        is_let_bind,
    })
}

fn call(f: Expression, args: Vec<Expression>) -> Expression {
    Expression::CallExpression(CallExpression { function: Box::new(f), arguments: args })
}

fn array(items: Vec<Expression>) -> Expression {
    Expression::ArrayLiteral(ArrayLiteral { elements: items })
}

fn index(l: Expression, i: Expression) -> Expression {
    Expression::IndexExpression(IndexExpression { left: Box::new(l), index: Box::new(i) })
}

fn load(stms: Vec<Statement>) -> VM {
    let program = Program { statements: stms };
    assert!(compilable(&program));
    let mut compiler = Compiler::create().unwrap();
    compiler.compile(program).unwrap();
    VM::new(compiler.bytecode().unwrap())
}

fn run(stms: Vec<Statement>) -> Result<VM, VmError> {
    let mut vm = load(stms);
    while vm.is_runable() {
        assert!(vm.can_step());
        vm.run_single()?;
    }
    Ok(vm)
}

fn result(stms: Vec<Statement>) -> Option<Object> {
    run(stms).unwrap().last_pop().clone()
}

fn int_obj(v: i64) -> Option<Object> {
    Some(Object::Int(Int { value: v }))
}

fn bool_obj(v: bool) -> Option<Object> {
    Some(Object::Bool(Bool { value: v }))
}

#[test]
fn integer_arithmetic() {
    assert_eq!(result(vec![exp(infix(Kind::Plus, num(1), num(2)))]), int_obj(3));
    assert_eq!(result(vec![exp(infix(Kind::Minus, num(1), num(2)))]), int_obj(-1));
    assert_eq!(result(vec![exp(infix(Kind::Product, num(6), num(7)))]), int_obj(42));
    assert_eq!(result(vec![exp(infix(Kind::Divide, num(7), num(2)))]), int_obj(3));
    assert_eq!(result(vec![exp(infix(Kind::Divide, num(-7), num(2)))]), int_obj(-3));
    assert_eq!(result(vec![exp(infix(Kind::Mod, num(7), num(3)))]), int_obj(1));
    assert_eq!(result(vec![exp(infix(Kind::Mod, num(-7), num(3)))]), int_obj(-1));
    assert_eq!(result(vec![exp(prefix(Kind::Minus, num(5)))]), int_obj(-5));
}

#[test]
fn integer_comparisons() {
    assert_eq!(result(vec![exp(infix(Kind::LT, num(1), num(2)))]), bool_obj(true));
    assert_eq!(result(vec![exp(infix(Kind::GT, num(1), num(2)))]), bool_obj(false));
    assert_eq!(result(vec![exp(infix(Kind::LT_OR_EQ, num(2), num(2)))]), bool_obj(true));
    assert_eq!(result(vec![exp(infix(Kind::GT_OR_EQ, num(1), num(2)))]), bool_obj(false));
    assert_eq!(result(vec![exp(infix(Kind::EQ, num(3), num(3)))]), bool_obj(true));
    assert_eq!(result(vec![exp(infix(Kind::NOT_EQ, num(3), num(3)))]), bool_obj(false));
}

#[test]
fn boolean_operations() {
    assert_eq!(result(vec![exp(prefix(Kind::Bang, boolean(true)))]), bool_obj(false));
    assert_eq!(result(vec![exp(infix(Kind::EQ, boolean(true), boolean(true)))]), bool_obj(true));
    assert_eq!(result(vec![exp(infix(Kind::NOT_EQ, boolean(true), boolean(false)))]), bool_obj(true));
}

#[test]
fn string_concatenation() {
    assert_eq!(
        result(vec![exp(infix(Kind::Plus, string("ab"), string("cd")))]),
        Some(Object::String(StringObject { value: "abcd".to_string() }))
    );
}

#[test]
fn global_let_bindings() {
    let r = result(vec![
        let_("a", num(5)),
        let_("b", infix(Kind::Product, id("a"), num(2))),
        exp(infix(Kind::Plus, id("a"), id("b"))),
    ]);
    assert_eq!(r, int_obj(15));
}

#[test]
fn if_else_picks_branch() {
    let r = result(vec![exp(if_(
        infix(Kind::LT, num(1), num(2)),
        vec![exp(num(10))],
        Some(vec![exp(num(20))]),
    ))]);
    assert_eq!(r, int_obj(10));
    let r = result(vec![exp(if_(
        infix(Kind::GT, num(1), num(2)),
        vec![exp(num(10))],
        Some(vec![exp(num(20))]),
    ))]);
    assert_eq!(r, int_obj(20));
}

#[test]
fn arrays_and_index() {
    let r = result(vec![exp(array(vec![num(1), num(2), num(3)]))]);
    assert_eq!(
        r,
        Some(Object::Array(Array {
            elements: vec![
                Object::Int(Int { value: 1 }),
                Object::Int(Int { value: 2 }),
                Object::Int(Int { value: 3 }),
            ]
        }))
    );
    let r = result(vec![exp(index(array(vec![num(1), num(2), num(3)]), num(1)))]);
    assert_eq!(r, int_obj(2));
}

#[test]
fn index_that_is_not_an_integer_is_an_error() {
    let r = run(vec![exp(index(array(vec![num(1)]), boolean(true)))]);
    assert!(matches!(r, Err(VmError::IndexNotAInt { .. })));
}

#[test]
fn index_of_non_array_is_an_error() {
    let r = run(vec![exp(index(num(1), num(0)))]);
    assert!(matches!(r, Err(VmError::IndexTargetNotAArray { .. })));
}

#[test]
fn mixed_types_are_an_error() {
    let r = run(vec![exp(infix(Kind::Plus, num(1), boolean(true)))]);
    assert!(matches!(r, Err(VmError::TypeNotSame { .. })));
}

#[test]
fn bad_bool_operator_is_an_error() {
    let r = run(vec![exp(infix(Kind::Plus, boolean(true), boolean(false)))]);
    assert!(matches!(r, Err(VmError::InvalidBoolInstruction(_))));
}

#[test]
fn negating_a_bool_is_an_error() {
    let r = run(vec![exp(prefix(Kind::Minus, boolean(true)))]);
    assert!(matches!(r, Err(VmError::NotAInt { .. })));
}

#[test]
fn function_call_with_locals() {
    let r = result(vec![
        let_(
            "f",
            func(Some("f"), &["x"], vec![let_("y", num(2)), ret(infix(Kind::Product, id("x"), id("y")))], true),
        ),
        exp(call(id("f"), vec![num(21)])),
    ]);
    assert_eq!(r, int_obj(42));
}

#[test]
fn closure_captures_free_variable() {
    let r = result(vec![
        let_(
            "adder",
            func(
                Some("adder"),
                &["a"],
                vec![ret(func(None, &["b"], vec![ret(infix(Kind::Plus, id("a"), id("b")))], false))],
                true,
            ),
        ),
        let_("add2", call(id("adder"), vec![num(2)])),
        exp(call(id("add2"), vec![num(40)])),
    ]);
    assert_eq!(r, int_obj(42));
}

#[test]
fn index_past_the_end_cannot_step() {
    let mut vm = load(vec![exp(index(array(vec![num(1)]), num(3)))]);
    let mut steps = 0;
    while vm.can_step() {
        vm.run_single().unwrap();
        steps += 1;
    }
    // CONST, ARRAY and CONST ran; INDEX would panic
    assert_eq!(steps, 3);
    assert!(vm.is_runable());
}

#[test]
fn integer_overflow_cannot_step() {
    let mut vm = load(vec![exp(infix(Kind::Plus, num(i64::MAX), num(1)))]);
    vm.run_single().unwrap();
    vm.run_single().unwrap();
    assert!(!vm.can_step());
    let mut vm = load(vec![exp(infix(Kind::Divide, num(1), num(0)))]);
    vm.run_single().unwrap();
    vm.run_single().unwrap();
    assert!(!vm.can_step());
}

#[test]
fn unfinished_parts_are_not_compilable() {
    let no_value = Program {
        statements: vec![Statement::LetStatement(LetStatement { identifier: ident("a"), value: None })],
    };
    assert!(!compilable(&no_value));
    let assign = Program { statements: vec![exp(infix(Kind::Assign, id("a"), num(1)))] };
    assert!(!compilable(&assign));
    let nested = Program {
        statements: vec![exp(func(None, &[], vec![exp(prefix(Kind::Plus, num(1)))], false))],
    };
    assert!(!compilable(&nested));
    let fine = Program { statements: vec![exp(prefix(Kind::Minus, num(1)))] };
    assert!(compilable(&fine));
}

#[test]
fn machine_text_shows_constants_frames_and_stack() {
    let vm = load(vec![exp(num(7))]);
    let text = vm.to_string();
    let expected_start = "CONSTS\n000000\t\tInt:7\n\nFrames\nCurrent Frame:\n<FRAME> IC : 0, BP : 0\n\nINSTRUCTIONS\n>>00000\t\tCONST\t\t0\n";
    assert!(text.starts_with(expected_start), "{text}");
    assert!(text.ends_with("\nSTACK\n000000\t\tNONE\n+++++1\t\tNONE\n+++++2\t\tNONE\n+++++3\t\tNONE\n+++++4\t\tNONE\n"));
    assert_eq!(vm.stack_to_string(), "\nSTACK\n000000\t\tNONE\n+++++1\t\tNONE\n+++++2\t\tNONE\n+++++3\t\tNONE\n+++++4\t\tNONE\n");
}

#[test]
fn stack_text_after_a_push() {
    let mut vm = load(vec![exp(num(7))]);
    vm.run_single().unwrap();
    assert_eq!(
        vm.stack_to_string(),
        "\nSTACK\n-----0\t\tNONE\n000001\t\tInt:7\n+++++2\t\tNONE\n+++++3\t\tNONE\n+++++4\t\tNONE\n+++++5\t\tNONE\n"
    );
    assert_eq!(vm.top(), &Some(Object::Int(Int { value: 7 })));
}

fn fibonacci(n: i64) -> Vec<Statement> {
    let call1 = call(id("fibonacci"), vec![infix(Kind::Minus, id("x"), num(1))]);
    let call2 = call(id("fibonacci"), vec![infix(Kind::Minus, id("x"), num(2))]);
    let inner = if_(
        infix(Kind::EQ, id("x"), num(1)),
        vec![ret(num(1))],
        Some(vec![exp(infix(Kind::Plus, call1, call2))]),
    );
    let body = vec![exp(if_(infix(Kind::EQ, id("x"), num(0)), vec![exp(num(0))], Some(vec![exp(inner)])))];
    vec![
        let_("fibonacci", func(Some("fibonacci"), &["x"], body, true)),
        exp(call(id("fibonacci"), vec![num(n)])),
    ]
}

#[test]
fn recursive_fibonacci() {
    assert_eq!(result(fibonacci(10)), int_obj(55));
    assert_eq!(result(fibonacci(15)), int_obj(610));
}

#[test]
fn more_error_variants() {
    let r = run(vec![exp(infix(Kind::Minus, string("a"), string("b")))]);
    assert!(matches!(r, Err(VmError::InvalidStringInstruction(_))));
    let r = run(vec![exp(prefix(Kind::Bang, num(5)))]);
    assert!(matches!(r, Err(VmError::NotABolean { .. })));
    let r = run(vec![exp(if_(num(5), vec![exp(num(1))], None))]);
    assert!(matches!(r, Err(VmError::JumpConditionNotABolean { .. })));
    let r = run(vec![exp(infix(Kind::And, num(1), num(2)))]);
    assert!(matches!(r, Err(VmError::InvalidIntegerInstruction(_))));
}

#[test]
fn string_equality_and_boolean_logic() {
    assert_eq!(result(vec![exp(infix(Kind::EQ, string("a"), string("a")))]), bool_obj(true));
    assert_eq!(result(vec![exp(infix(Kind::NOT_EQ, string("a"), string("a")))]), bool_obj(false));
    assert_eq!(result(vec![exp(infix(Kind::And, boolean(true), boolean(false)))]), bool_obj(false));
    assert_eq!(result(vec![exp(infix(Kind::Or, boolean(true), boolean(false)))]), bool_obj(true));
    assert_eq!(result(vec![exp(infix(Kind::Bit_And, num(6), num(3)))]), int_obj(2));
    assert_eq!(result(vec![exp(infix(Kind::Bit_Or, num(6), num(3)))]), int_obj(7));
}

#[test]
fn stepping_debugger_decisions() {
    let mut vm = load(vec![exp(infix(Kind::Plus, num(1), num(2)))]);
    let line = |t: &str| StepInput::Line(t.to_string());
    assert_eq!(stepping_action(&vm, &StepInput::Eof), StepAction::Quit);
    assert_eq!(stepping_action(&vm, &line("\n")), StepAction::Step);
    assert_eq!(stepping_action(&vm, &line("exit\n")), StepAction::Leave);
    assert_eq!(stepping_action(&vm, &line("exit \t\r\n")), StepAction::Leave);
    assert_eq!(stepping_action(&vm, &line(" exit\n")), StepAction::Step);
    assert_eq!(stepping_action(&vm, &line("exits\n")), StepAction::Step);
    while vm.is_runable() {
        vm.run_single().unwrap();
    }
    assert_eq!(stepping_action(&vm, &line("\n")), StepAction::Leave);
    assert_eq!(stepping_action(&vm, &StepInput::Eof), StepAction::Quit);
}
