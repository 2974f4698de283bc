use std::rc::Rc;

use fipe::ast::{
    ArrayLiteral, BlockStatement, BooleanLiteral, CallExpression, Expression, ExpressionStatement, Identifier,
    IfExpression, IndexExpression, InfixExpression, IntegerLiteral, LetStatement, PrefixExpression, ReturnStatement,
    Statement, StringLiteral,
};
use fipe::token::{Kind, Token};
use fipe::bytecode;
use fipe::bytecode::instruction::Instruction as I;
use fipe::bytecode::op::OP;
use fipe::bytecode::opcode::OpCode;
use fipe::bytecode_vm::bytecode::instruction::Instruction;
use fipe::bytecode_vm::bytecode::instructions::Instructions;
use fipe::bytecode_vm::bytecode::symbol::{Scope, SymbolTable};
use fipe::bytecode_vm::vm::frame::Frame;
use fipe::immix::errors::ImmixError;
use fipe::immix::ptr::{MetaPtr, PairPtr, TypedPtr, OR};
use fipe::object::environment::Environment;
use fipe::object::{
    is_same_type, Array, Bool, ClosureFunction, CompiledFunction, Function, Int, Object,
    ObjectTrait, ObjectType, Return, StringObject,
};
use fipe::test::Tests;
use fipe::treewalker::eval::errors::EvalError;
use fipe::utils::{add_pad, decimal_len, push_decimal, push_decimal_padded, push_decimal_u64, push_int};

fn compiled(local_len: usize, arg_len: usize) -> CompiledFunction {
    let mut code = Instructions::create().unwrap();
    code.add_instruction(Instruction::CONST { idx: 1 }).unwrap();
    CompiledFunction { instructions: code, local_len, arg_len }
}

#[test]
fn scalar_texts_and_types() {
    assert_eq!(Int { value: 5 }.to_str(), "Int:5");
    assert_eq!(Int { value: -30 }.to_str(), "Int:-30");
    assert_eq!(Int { value: i64::MIN }.to_str(), "Int:-9223372036854775808");
    assert_eq!(Bool { value: true }.to_str(), "Bool:true");
    assert_eq!(StringObject { value: "hi".to_string() }.to_str(), "String:hi");
    assert_eq!(Object::Int(Int { value: 1 }).get_type(), ObjectType::Int);
    assert_eq!(Object::Bool(Bool { value: false }).get_type(), ObjectType::Bool);
}

#[test]
fn array_text() {
    let arr = Array {
        elements: vec![Object::Int(Int { value: 1 }), Object::Bool(Bool { value: false })],
    };
    assert_eq!(arr.to_str(), "[Int:1, Bool:false]");
    assert_eq!(Array { elements: vec![] }.to_str(), "[]");
    assert_eq!(Object::Array(arr).get_type(), ObjectType::Array);
}

#[test]
fn compiled_function_text() {
    let f = compiled(2, 1);
    assert_eq!(
        f.to_str(),
        "CompiledFunction\n>\tlocal_len=2, arg_len=1\n>\tFuntion's Instructions\n>\t00000\t\tCONST\t\t1\n>\t\n"
    );
    assert_eq!(Object::CompiledFunction(f).get_type(), ObjectType::CompiledFunction);
}

#[test]
fn closure_text_lists_free_values() {
    let c = ClosureFunction { fun: compiled(0, 0), free: vec![Object::Int(Int { value: 7 })] };
    let expected = format!("Closure\n>Free variables\n0->Int:7\n>Inner Function\n{}", compiled(0, 0).to_str());
    assert_eq!(c.to_str(), expected);
    // a closure reports the type of its function
    assert_eq!(c.get_type(), ObjectType::CompiledFunction);
}

#[test]
fn function_text_and_type() {
    let f = Function {
        identifier: Some("add".to_string()),
        args: vec![Identifier { value: "x".to_string() }, Identifier { value: "y".to_string() }],
        block: Rc::new(BlockStatement { statements: vec![] }),
        env: Rc::new(Environment::new()),
    };
    assert_eq!(f.to_str(), "fn add(x, y) {\n}");
    assert_eq!(f.get_type(), ObjectType::Function);
}

fn ident_exp(name: &str) -> Expression {
    Expression::Identifier(Identifier { value: name.to_string() })
}

#[test]
fn function_text_shows_its_body() {
    let sum = Expression::InfixExpression(InfixExpression {
        operator: Token { kind: Kind::Plus },
        left: Box::new(ident_exp("x")),
        right: Box::new(ident_exp("y")),
    });
    let f = Function {
        identifier: None,
        args: vec![Identifier { value: "x".to_string() }, Identifier { value: "y".to_string() }],
        block: Rc::new(BlockStatement {
            statements: vec![
                Statement::LetStatement(LetStatement {
                    identifier: Identifier { value: "z".to_string() },
                    value: Some(Expression::IntegerLiteral(IntegerLiteral { value: -3 })),
                }),
                Statement::ReturnStatement(ReturnStatement { value: Some(sum) }),
            ],
        }),
        env: Rc::new(Environment::new()),
    };
    assert_eq!(f.to_str(), "(x, y) {\nlet z = -3;\nreturn (x + y);\n}");
    assert_eq!(Object::Function(f).to_str(), "(x, y) {\nlet z = -3;\nreturn (x + y);\n}");
}

#[test]
fn block_text_of_expressions() {
    let call = Expression::CallExpression(CallExpression {
        function: Box::new(ident_exp("f")),
        arguments: vec![
            Expression::PrefixExpression(PrefixExpression {
                token: Token { kind: Kind::Minus },
                right: Box::new(Expression::IntegerLiteral(IntegerLiteral { value: 1 })),
            }),
            Expression::ArrayLiteral(ArrayLiteral {
                elements: vec![Expression::BooleanLiteral(BooleanLiteral { value: true }), ident_exp("a")],
            }),
            Expression::IndexExpression(IndexExpression {
                left: Box::new(ident_exp("a")),
                index: Box::new(Expression::StringLiteral(StringLiteral { value: "k".to_string() })),
            }),
        ],
    });
    let branch = Expression::IfExpression(IfExpression {
        condition: Box::new(ident_exp("c")),
        consequence: BlockStatement {
            statements: vec![Statement::ExpressionStatement(ExpressionStatement { expression: Some(call) })],
        },
        alternative: Some(BlockStatement {
            statements: vec![Statement::ReturnStatement(ReturnStatement { value: None })],
        }),
    });
    let block = BlockStatement {
        statements: vec![Statement::ExpressionStatement(ExpressionStatement { expression: Some(branch) })],
    };
    assert_eq!(block.to_str(), "if c {\nf((-1), [true, a], (a[k]))\n} else {\nreturn;\n}\n");
    assert_eq!(BlockStatement { statements: vec![] }.to_str(), "");
}

#[test]
fn return_text_shows_the_value() {
    let r = Return { value: Some(Box::new(Object::Int(Int { value: 4 }))) };
    assert_eq!(r.to_str(), "Return { value: Some(Int:4) }");
    assert_eq!(Return { value: None }.to_str(), "Return { value: None }");
    let nested = Object::Array(Array { elements: vec![Object::Return(Return { value: None })] });
    assert_eq!(nested.to_str(), "[Return { value: None }]");
}

#[test]
fn same_type_compares_types_only() {
    assert!(is_same_type(&Object::Int(Int { value: 1 }), &Object::Int(Int { value: 2 })));
    assert!(!is_same_type(&Object::Int(Int { value: 1 }), &Object::Bool(Bool { value: true })));
}

fn ptr(data: usize) -> TypedPtr<Object> {
    TypedPtr { ptr: PairPtr { meta: OR::L(MetaPtr { low: 0, high: 0, block: 0 }), data }, tag: std::marker::PhantomData }
}

#[test]
fn environment_reads_what_was_set() {
    let mut env = Environment::new();
    assert!(env.set("a".to_string(), ptr(8)).is_none());
    assert_eq!(env.get_clone(&"a".to_string()).unwrap().as_ptr(), 8);
    let old = env.set("a".to_string(), ptr(16)).unwrap();
    assert_eq!(old.as_ptr(), 8);
    assert_eq!(env.get_clone(&"a".to_string()).unwrap().as_ptr(), 16);
    assert!(env.get_clone(&"b".to_string()).is_none());
}

#[test]
fn captured_environment_sees_outer_bindings() {
    let mut outer = Environment::new();
    outer.set("a".to_string(), ptr(8));
    let mut inner = Environment::capture(&outer);
    assert_eq!(inner.get_clone(&"a".to_string()).unwrap().as_ptr(), 8);
    inner.set("a".to_string(), ptr(24));
    assert_eq!(inner.get_clone(&"a".to_string()).unwrap().as_ptr(), 24);
    assert_eq!(outer.get_clone(&"a".to_string()).unwrap().as_ptr(), 8);
    assert_eq!(outer.copy().get_clone(&"a".to_string()).unwrap().as_ptr(), 8);
}

#[test]
fn symbol_table_globals_and_locals() {
    let mut global = SymbolTable::new();
    assert!(global.is_global());
    assert_eq!(global.define("a"), 0);
    assert_eq!(global.define("b"), 1);
    assert_eq!(global.len(), 2);
    let a = global.resolve(&"a".to_string()).unwrap();
    assert!(a.is_global());
    assert_eq!(a.index(), 0);
    assert!(global.resolve(&"c".to_string()).is_none());

    let mut local = SymbolTable::enclose(global);
    assert!(!local.is_global());
    assert_eq!(local.define("x"), 0);
    let x = local.resolve(&"x".to_string()).unwrap();
    assert_eq!(*x.scope(), Scope::Local);
    let b = local.resolve(&"b".to_string()).unwrap();
    assert_eq!(*b.scope(), Scope::Global);
    assert_eq!(b.index(), 1);
    let f = local.define_function_name("f");
    assert_eq!(*f.scope(), Scope::Function);
    let mut back = local.get_outer();
    assert_eq!(back.resolve(&"b".to_string()).unwrap().index(), 1);
}

#[test]
fn symbol_table_free_variables() {
    let mut global = SymbolTable::new();
    global.define("g");
    let mut outer = SymbolTable::enclose(global);
    outer.define("a");
    let mut inner = SymbolTable::enclose(outer);
    let a = inner.resolve(&"a".to_string()).unwrap();
    assert_eq!(*a.scope(), Scope::Free);
    assert_eq!(a.index(), 0);
    let free = inner.get_free();
    assert_eq!(free.len(), 1);
    assert_eq!(*free[0].scope(), Scope::Local);
    let g = inner.resolve(&"g".to_string()).unwrap();
    assert_eq!(*g.scope(), Scope::Global);
    assert_eq!(inner.get_free().len(), 1);
}

#[test]
fn small_set_symbol_table() {
    let mut t = bytecode::symbol::SymbolTable::new();
    assert_eq!(t.define_global(&"a".to_string()), 0);
    assert_eq!(t.define_global(&"b".to_string()), 1);
    assert_eq!(t.get_global(&"a".to_string()).unwrap().index, 0);
    // redefining takes the count as index and keeps the count
    assert_eq!(t.define_global(&"a".to_string()), 2);
    assert_eq!(t.get_global(&"a".to_string()).unwrap().index, 2);
    assert_eq!(t.define_global(&"c".to_string()), 2);
    assert!(t.get_global(&"z".to_string()).is_none());
}

#[test]
fn small_set_opcodes_and_text() {
    assert_eq!(OpCode::CONST.length(), 9);
    assert_eq!(OpCode::JEQ.arg_len(), vec![8]);
    assert_eq!(OpCode::ADD.length(), 1);
    assert_eq!(OpCode::ADD.arg_len(), Vec::<usize>::new());
    assert_eq!(I::JNEQ { idx: 3 }.opcode(), OpCode::JNEQ);
    assert_eq!(OP::CONST { idx: 3 }.to_string(), "CONST\t\t3");
    assert_eq!(OP::JMP.to_string(), "JMP");
    assert_eq!(OP::JNEQ { idx: 12 }.to_string(), "JNEQ\t\t12");
    let mut code = bytecode::instructions::Instructions::new();
    code.add_instruction(I::CONST { idx: 1 });
    code.add_instruction(I::ADD);
    let b = bytecode::Bytecode::new();
    assert!(b.constants.is_empty());
}

#[test]
fn frame_starts_at_first_instruction() {
    let c = ClosureFunction { fun: compiled(0, 0), free: vec![] };
    let mut frame = Frame::new(c, 4);
    assert_eq!(frame.ic(), 0);
    assert_eq!(frame.bp(), 4);
    assert!(frame.is_runnable());
    assert_eq!(frame.rext_instruction().unwrap(), Instruction::CONST { idx: 1 });
    frame.add_ic(9);
    assert_eq!(frame.ic(), 9);
    frame.set_ic(100);
    assert!(!frame.is_runnable());
    assert!(frame.rext_instruction().is_err());
}

#[test]
fn padding_and_decimals() {
    assert_eq!(add_pad("a\nb", "> "), "> a\n> b");
    assert_eq!(add_pad("", "|"), "|");
    assert_eq!(add_pad("x\n", "\t"), "\tx\n\t");
    let mut s = String::from("n=");
    push_decimal(&mut s, 1203);
    assert_eq!(s, "n=1203");
    assert_eq!(decimal_len(0), 1);
    assert_eq!(decimal_len(99999), 5);
    let mut p = String::new();
    push_decimal_padded(&mut p, 42, 5, "0");
    assert_eq!(p, "00042");
    let mut q = String::new();
    push_decimal_padded(&mut q, 123456, 5, "0");
    assert_eq!(q, "123456");
    let mut u = String::new();
    push_decimal_u64(&mut u, u64::MAX);
    assert_eq!(u, "18446744073709551615");
    let mut i = String::new();
    push_int(&mut i, -7);
    assert_eq!(i, "-7");
}

#[test]
fn table_of_cases() {
    let mut t: Tests<i64> = Tests::new();
    assert!(t.cases.is_empty());
    t.add(("1 + 1", 2));
    t.add(("2 * 3", 6));
    assert_eq!(t.cases.len(), 2);
    assert_eq!(t.cases[1].input, "2 * 3");
    assert_eq!(t.cases[1].expect, 6);
}

#[test]
fn memory_errors_become_eval_errors() {
    let e: EvalError = ImmixError::DuplicatedKey.into();
    assert_eq!(e, EvalError::MemoryError(ImmixError::DuplicatedKey));
}

#[test]
fn functions_compare_without_their_environment() {
    let body = |v: i64| {
        Rc::new(BlockStatement {
            statements: vec![Statement::ExpressionStatement(ExpressionStatement {
                expression: Some(Expression::IntegerLiteral(IntegerLiteral { value: v })),
            })],
        })
    };
    let mut env = Environment::new();
    env.set("a".to_string(), ptr(8));
    let f = Function {
        identifier: Some("f".to_string()),
        args: vec![Identifier { value: "x".to_string() }],
        block: body(1),
        env: Rc::new(Environment::new()),
    };
    let g = Function {
        identifier: Some("f".to_string()),
        args: vec![Identifier { value: "x".to_string() }],
        block: body(1),
        env: Rc::new(env),
    };
    let h = Function {
        identifier: Some("f".to_string()),
        args: vec![Identifier { value: "x".to_string() }],
        block: body(2),
        env: Rc::new(Environment::new()),
    };
    assert!(f == g);
    assert!(f != h);
    assert!(Object::Function(f) == Object::Function(g));
}

#[test]
fn free_symbols_in_order_of_first_resolution() {
    let mut global = SymbolTable::new();
    global.define("g");
    let mut outer = SymbolTable::enclose(global);
    outer.define("a");
    outer.define("b");
    let mut inner = SymbolTable::enclose(outer);
    let b = inner.resolve(&"b".to_string()).unwrap();
    let a = inner.resolve(&"a".to_string()).unwrap();
    let b_again = inner.resolve(&"b".to_string()).unwrap();
    assert_eq!((*b.scope(), b.index()), (Scope::Free, 0));
    assert_eq!((*a.scope(), a.index()), (Scope::Free, 1));
    assert_eq!((*b_again.scope(), b_again.index()), (Scope::Free, 0));
    let free = inner.get_free();
    assert_eq!(free.len(), 2);
    assert_eq!((free[0].index(), free[1].index()), (1, 0));
}

#[test]
fn outer_table_comes_back_after_any_calls() {
    let mut global = SymbolTable::new();
    global.define("g");
    let mut local = SymbolTable::enclose(global);
    local.define("x");
    local.define_function_name("f");
    local.resolve(&"g".to_string());
    local.resolve(&"nope".to_string());
    let mut back = local.get_outer();
    assert!(back.is_global());
    assert_eq!(back.len(), 1);
    assert!(back.get_free().is_empty());
    assert_eq!(back.resolve(&"g".to_string()).unwrap().index(), 0);
    assert!(local.is_global());
}
