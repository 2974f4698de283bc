use fipe::ast::{
    ArrayLiteral, BlockStatement, CallExpression, IndexExpression, PrefixExpression,
    Expression, ExpressionStatement, Identifier, InfixExpression, IntegerLiteral, LetStatement,
    Program, Statement,
};
use fipe::bytecode_vm::bytecode::compiler::Compiler;
use fipe::bytecode_vm::bytecode::errors::{CompileError, InstructionsError};
use fipe::bytecode_vm::bytecode::instruction::Instruction;
use fipe::bytecode_vm::bytecode::instructions::Instructions;
use fipe::bytecode_vm::bytecode::opcode::OpCode;
use fipe::object::{Int, Object};
use fipe::token::{Kind, Token};

const ALL_OPS: [OpCode; 37] = [
    OpCode::PUSH, OpCode::POP, OpCode::CONST, OpCode::DEFGLB, OpCode::GETGLB, OpCode::DEFLCL,
    OpCode::GETLCL, OpCode::GETFREE, OpCode::ADD, OpCode::SUB, OpCode::PRODUCT, OpCode::DIVIDE,
    OpCode::MOD, OpCode::BANG, OpCode::NEG, OpCode::CGT, OpCode::CGTE, OpCode::CLT, OpCode::CLTE,
    OpCode::CEQ, OpCode::CNEQ, OpCode::AND, OpCode::OR, OpCode::BAND, OpCode::BOR, OpCode::JMP,
    OpCode::JIS, OpCode::JNS, OpCode::JEQ, OpCode::JNEQ, OpCode::ARRAY, OpCode::INDEX,
    OpCode::CALL, OpCode::RETN, OpCode::RETV, OpCode::CLOSURE, OpCode::GETCUR,
];

const WORD: usize = usize::BITS as usize / 8;

#[test]
fn opcode_bytes_round_trip() {
    for op in ALL_OPS.iter() {
        assert_eq!(OpCode::try_from(op.to_byte()), Ok(*op));
    }
    assert_eq!(OpCode::try_from(0), Ok(OpCode::PUSH));
    assert_eq!(OpCode::try_from(200), Err(()));
}

#[test]
fn opcode_lengths_follow_operands() {
    assert_eq!(OpCode::ADD.arg_len(), Vec::<usize>::new());
    assert_eq!(OpCode::ADD.length(), 1);
    assert_eq!(OpCode::CONST.arg_len(), vec![WORD]);
    assert_eq!(OpCode::CONST.length(), 1 + WORD);
    assert_eq!(OpCode::CLOSURE.arg_len(), vec![WORD, WORD]);
    assert_eq!(OpCode::CLOSURE.length(), 1 + 2 * WORD);
}

#[test]
fn instruction_encoding() {
    let mut expected = vec![OpCode::CONST.to_byte()];
    expected.extend_from_slice(&7usize.to_ne_bytes());
    assert_eq!(Instruction::CONST { idx: 7 }.as_byte(), expected);
    assert_eq!(Instruction::ADD.as_byte(), vec![OpCode::ADD.to_byte()]);
    assert_eq!(Instruction::CLOSURE { idx: 1, free: 2 }.as_byte().len(), 1 + 2 * WORD);
    assert_eq!(Instruction::CALL { arg_len: 2 }.opcode(), OpCode::CALL);
}

#[test]
fn instruction_text() {
    assert_eq!(Instruction::CONST { idx: 3 }.to_string(), "CONST\t\t3");
    assert_eq!(Instruction::ADD.to_string(), "ADD");
    assert_eq!(Instruction::JNS { idx: 120 }.to_string(), "JNS\t\t120");
    assert_eq!(Instruction::CLOSURE { idx: 4, free: 1 }.to_string(), "CLOSURE\t\t4 1");
}

#[test]
fn encode_then_read_gives_each_instruction_back() {
    let program = [
        Instruction::CONST { idx: 0 },
        Instruction::CONST { idx: 65535 },
        Instruction::ADD,
        Instruction::JNS { idx: 3 },
        Instruction::CLOSURE { idx: 9, free: 2 },
        Instruction::RETV,
    ];
    let mut code = Instructions::create().unwrap();
    let mut offsets = Vec::new();
    for ins in program.iter() {
        offsets.push(code.add_instruction(*ins).unwrap());
    }
    assert_eq!(offsets, vec![0, 1 + WORD, 2 + 2 * WORD, 3 + 2 * WORD, 4 + 3 * WORD, 5 + 5 * WORD]);
    assert_eq!(code.length(), 6 + 5 * WORD);
    for (ins, off) in program.iter().zip(offsets.iter()) {
        assert_eq!(code.read_instruction(*off).unwrap(), *ins);
    }
}

#[test]
fn reading_past_the_end_fails() {
    let mut code = Instructions::create().unwrap();
    code.add_instruction(Instruction::CONST { idx: 1 }).unwrap();
    match code.read_instruction(1 + WORD) {
        Err(InstructionsError::CannotRead { offset }) => assert_eq!(offset, 1 + WORD),
        _ => panic!("expected CannotRead"),
    }
}

#[test]
fn truncated_operand_fails() {
    let mut code = Instructions::create().unwrap();
    code.add_instruction(Instruction::CONST { idx: 1 }).unwrap();
    code.remove_instruction(3);
    assert_eq!(code.length(), 3);
    assert!(matches!(code.read_instruction(0), Err(InstructionsError::CannotRead { offset: 0 })));
}

#[test]
fn update_instruction_overwrites_in_place() {
    let mut code = Instructions::create().unwrap();
    code.add_instruction(Instruction::JMP { idx: 9999 }).unwrap();
    code.add_instruction(Instruction::POP).unwrap();
    code.update_instruction(Instruction::JMP { idx: 12 }, 0);
    assert_eq!(code.read_instruction(0).unwrap(), Instruction::JMP { idx: 12 });
    assert_eq!(code.read_instruction(1 + WORD).unwrap(), Instruction::POP);
}

#[test]
fn listing_text() {
    let mut code = Instructions::create().unwrap();
    code.add_instruction(Instruction::CONST { idx: 1 }).unwrap();
    code.add_instruction(Instruction::ADD).unwrap();
    let second = format!("{:0>5}", 1 + WORD);
    assert_eq!(code.to_string(), format!("00000\t\tCONST\t\t1\n{second}\t\tADD\n"));
    assert_eq!(
        code.to_string_with_highlight(1 + WORD),
        format!("00000\t\tCONST\t\t1\n>>{second}\t\tADD\n")
    );
}

fn ident(name: &str) -> Identifier {
    Identifier { value: name.to_string() }
}

fn num(v: i64) -> Expression {
    Expression::IntegerLiteral(IntegerLiteral { value: v })
}

#[test]
fn compiler_emits_constants_operator_and_pop() {
    let mut compiler = Compiler::create().unwrap();
    let stm = Statement::ExpressionStatement(ExpressionStatement {
        expression: Some(Expression::InfixExpression(InfixExpression {
            operator: Token { kind: Kind::Plus },
            left: Box::new(num(1)),
            right: Box::new(num(2)),
        })),
    });
    compiler.compile(Program { statements: vec![stm] }).unwrap();
    let code = compiler.bytecode().unwrap();
    // the right operand is compiled first
    assert_eq!(code.constants, vec![Object::Int(Int { value: 2 }), Object::Int(Int { value: 1 })]);
    let mut expected = Instructions::create().unwrap();
    expected.add_instruction(Instruction::CONST { idx: 0 }).unwrap();
    expected.add_instruction(Instruction::CONST { idx: 1 }).unwrap();
    expected.add_instruction(Instruction::ADD).unwrap();
    expected.add_instruction(Instruction::POP).unwrap();
    assert_eq!(code.instructions.to_string(), expected.to_string());
}

#[test]
fn compiler_defines_globals() {
    let mut compiler = Compiler::create().unwrap();
    let stms = vec![
        Statement::LetStatement(LetStatement { identifier: ident("a"), value: Some(num(5)) }),
        Statement::ExpressionStatement(ExpressionStatement {
            expression: Some(Expression::Identifier(ident("a"))),
        }),
    ];
    compiler.compile(Program { statements: stms }).unwrap();
    let code = compiler.bytecode().unwrap();
    let mut expected = Instructions::create().unwrap();
    expected.add_instruction(Instruction::CONST { idx: 0 }).unwrap();
    expected.add_instruction(Instruction::DEFGLB { idx: 0 }).unwrap();
    expected.add_instruction(Instruction::GETGLB { idx: 0 }).unwrap();
    expected.add_instruction(Instruction::POP).unwrap();
    assert_eq!(code.instructions.to_string(), expected.to_string());
}

#[test]
fn unknown_identifier_is_a_compile_error() {
    let mut compiler = Compiler::create().unwrap();
    let stm = Statement::ExpressionStatement(ExpressionStatement {
        expression: Some(Expression::Identifier(ident("nope"))),
    });
    match compiler.compile(Program { statements: vec![stm] }) {
        Err(CompileError::IdentifierNotFound(i)) => assert_eq!(i.value, "nope"),
        _ => panic!("expected IdentifierNotFound"),
    }
}

#[test]
fn bytecode_text_lists_constants_and_code() {
    let mut compiler = Compiler::create().unwrap();
    let stm = Statement::ExpressionStatement(ExpressionStatement {
        expression: Some(Expression::InfixExpression(InfixExpression {
            operator: Token { kind: Kind::Minus },
            left: Box::new(num(5)),
            right: Box::new(num(3)),
        })),
    });
    compiler.compile(Program { statements: vec![stm] }).unwrap();
    let code = compiler.bytecode().unwrap();
    let listing = code.instructions.to_string();
    assert_eq!(
        code.to_string(),
        format!("\nCONSTS\n000000\t\tInt:3\n000001\t\tInt:5\n\nINSTRUCTIONS\n{listing}")
    );
}

fn undefined_in(e: Expression) {
    let mut compiler = Compiler::create().unwrap();
    let stm = Statement::ExpressionStatement(ExpressionStatement { expression: Some(e) });
    match compiler.compile(Program { statements: vec![stm] }) {
        Err(CompileError::IdentifierNotFound(i)) => assert_eq!(i.value, "x"),
        _ => panic!("expected IdentifierNotFound"),
    }
}

fn x() -> Expression {
    Expression::Identifier(ident("x"))
}

#[test]
fn errors_inside_expressions_are_returned() {
    undefined_in(Expression::InfixExpression(InfixExpression {
        operator: Token { kind: Kind::Plus },
        left: Box::new(num(1)),
        right: Box::new(x()),
    }));
    undefined_in(Expression::InfixExpression(InfixExpression {
        operator: Token { kind: Kind::Plus },
        left: Box::new(x()),
        right: Box::new(num(1)),
    }));
    undefined_in(Expression::PrefixExpression(PrefixExpression { token: Token { kind: Kind::Minus }, right: Box::new(x()) }));
    undefined_in(Expression::ArrayLiteral(ArrayLiteral { elements: vec![num(1), x()] }));
    undefined_in(Expression::IndexExpression(IndexExpression { left: Box::new(x()), index: Box::new(num(0)) }));
    undefined_in(Expression::CallExpression(CallExpression { function: Box::new(x()), arguments: vec![] }));
}

#[test]
fn empty_program_compiles_to_nothing() {
    let mut compiler = Compiler::create().unwrap();
    assert!(matches!(compiler.compile(Program { statements: vec![] }), Ok(true)));
    let code = compiler.bytecode().unwrap();
    assert!(code.constants.is_empty());
    assert_eq!(code.instructions.to_string(), Instructions::create().unwrap().to_string());
}

#[test]
fn empty_blocks_compile_to_nothing() {
    let mut compiler = Compiler::create().unwrap();
    let inner = Statement::BlockStatement(BlockStatement { statements: vec![] });
    let outer = Statement::BlockStatement(BlockStatement { statements: vec![inner] });
    assert!(matches!(compiler.compile(Program { statements: vec![outer] }), Ok(true)));
    let code = compiler.bytecode().unwrap();
    assert!(code.constants.is_empty());
    assert_eq!(code.instructions.to_string(), Instructions::create().unwrap().to_string());
}
