use vstd::prelude::*;

use super::instruction::Instruction;
use super::instructions::splice;
use super::symbol::{resolve, Scope, SymbolV, TableV};
use crate::ast::{
    Expression, FunctionLiteral, Identifier, IfExpression, Statement,
};
use crate::object::{FunV, ObjectV};
use crate::token::Kind;
use crate::bytecode_vm::vm_spec::{binary, exec_ins, in_i64, pop_some, push_finish, trunc_div, trunc_rem, VmV};

verus! {

/// The compiler as a value: constant pool, one code buffer per open
/// function scope (the last is current), the symbol table, and the last
/// instruction written with its offset.
pub struct CompV {
    pub constants: Seq<ObjectV>,
    pub scopes: Seq<Seq<u8>>,
    pub scope_idx: usize,
    pub table: TableV,
    pub last: Option<(Instruction, usize)>,
}

/// A compile error as a value.
pub enum CErr {
    NotFinishedInMain,
    IdentifierNotFound(Seq<char>),
    /// the code buffer would exceed `isize::MAX` bytes
    WriteFailed,
    /// the allocator refused memory
    Other,
}

/// Outcome of compiling a node: `None` where compilation panics.
pub type CRes = Option<(CompV, Result<(), CErr>)>;

pub open spec fn code(s: CompV) -> Seq<u8> {
    s.scopes[s.scope_idx as int]
}

pub open spec fn with_code(s: CompV, c: Seq<u8>) -> CompV {
    CompV { scopes: s.scopes.update(s.scope_idx as int, c), ..s }
}

/// Append an instruction to the current scope.
pub open spec fn c_emit(s: CompV, ins: Instruction) -> (CompV, Result<usize, CErr>) {
    if code(s).len() + ins.encode().len() > isize::MAX {
        (s, Err(CErr::WriteFailed))
    } else {
        (
            CompV { last: Some((ins, code(s).len() as usize)), ..with_code(s, code(s) + ins.encode()) },
            Ok(code(s).len() as usize),
        )
    }
}

/// Emit, keeping the outcome but not the offset.
pub open spec fn c_emit_r(s: CompV, ins: Instruction) -> (CompV, Result<(), CErr>) {
    match c_emit(s, ins) {
        (t, Ok(_)) => (t, Ok(())),
        (t, Err(e)) => (t, Err(e)),
    }
}

/// The instruction that loads a symbol.
pub open spec fn load_ins(sym: SymbolV) -> Instruction {
    match sym.scope {
        Scope::Global => Instruction::GETGLB { idx: sym.index },
        Scope::Local => Instruction::GETLCL { idx: sym.index },
        Scope::Free => Instruction::GETFREE { idx: sym.index },
        Scope::Function => Instruction::GETCUR,
    }
}

/// Load each symbol in order, stopping at the first error.
pub open spec fn c_load_all(s: CompV, syms: Seq<SymbolV>) -> (CompV, Result<(), CErr>)
    decreases syms.len(),
{
    if syms.len() == 0 {
        (s, Ok(()))
    } else {
        match c_emit(s, load_ins(syms[0])) {
            (t, Ok(_)) => c_load_all(t, syms.drop_first()),
            (t, Err(e)) => (t, Err(e)),
        }
    }
}

/// Overwrite the instruction at `off` of the current scope.
pub open spec fn c_update(s: CompV, ins: Instruction, off: usize) -> Option<CompV> {
    if off + ins.encode().len() <= code(s).len() {
        Some(with_code(s, splice(code(s), off as int, ins.encode())))
    } else {
        None
    }
}

/// If the last instruction is `ins` or `with`, overwrite it with `with`.
pub open spec fn c_update_last_if(s: CompV, ins: Instruction, with: Instruction) -> Option<(CompV, bool)> {
    match s.last {
        Some((li, pos)) => if li == ins || li == with {
            match c_update(s, with, pos) {
                Some(t) => Some((CompV { last: Some((with, pos)), ..t }, true)),
                None => None,
            }
        } else {
            Some((s, false))
        },
        None => Some((s, false)),
    }
}

/// If the last instruction is `ins`, cut the current scope back to it.
pub open spec fn c_remove_last_if(s: CompV, ins: Instruction) -> Option<CompV> {
    match s.last {
        Some((li, pos)) => if li == ins {
            if pos <= code(s).len() {
                Some(CompV { last: None, ..with_code(s, code(s).subrange(0, pos as int)) })
            } else {
                None
            }
        } else {
            Some(s)
        },
        None => Some(s),
    }
}

pub open spec fn enclose(t: TableV) -> TableV {
    TableV { defs: Seq::empty(), len: 0, outer: Some(Box::new(t)), free: Seq::empty() }
}

/// Open a new function scope with an enclosed symbol table.
pub open spec fn c_enter(s: CompV) -> CompV {
    CompV {
        scopes: s.scopes.push(Seq::empty()),
        scope_idx: (s.scope_idx + 1) as usize,
        table: enclose(s.table),
        ..s
    }
}

/// Close the current function scope; gives its code.
pub open spec fn c_leave(s: CompV) -> Option<(CompV, Seq<u8>)> {
    if s.scope_idx == 0 || s.table.outer is None {
        None
    } else {
        Some((
            CompV {
                table: *s.table.outer->0,
                scope_idx: (s.scope_idx - 1) as usize,
                scopes: s.scopes.drop_last(),
                ..s
            },
            s.scopes.last(),
        ))
    }
}

pub open spec fn define_table(t: TableV, name: Seq<char>) -> TableV {
    TableV {
        defs: t.defs.push(SymbolV {
            name,
            scope: if t.outer is None { Scope::Global } else { Scope::Local },
            index: t.len,
        }),
        len: (t.len + 1) as usize,
        ..t
    }
}

/// Define `name` in the current table; gives its index.
pub open spec fn c_define(s: CompV, name: Seq<char>) -> Option<(CompV, usize)> {
    if s.table.len == usize::MAX {
        None
    } else {
        Some((CompV { table: define_table(s.table, name), ..s }, s.table.len))
    }
}

pub open spec fn c_define_all(s: CompV, names: Seq<Identifier>) -> Option<CompV>
    decreases names.len(),
{
    if names.len() == 0 {
        Some(s)
    } else {
        match c_define(s, names[0].value@) {
            Some((t, _)) => c_define_all(t, names.drop_first()),
            None => None,
        }
    }
}

/// Instruction that stores a value in the variable with index `idx`:
/// global in the outermost scope, local elsewhere.
pub open spec fn store_ins(t: TableV, idx: usize) -> Instruction {
    if t.outer is None {
        Instruction::DEFGLB { idx }
    } else {
        Instruction::DEFLCL { idx }
    }
}

/// The instruction of an infix operator, if the compiler supports it.
pub open spec fn infix_ins(k: Kind) -> Option<Instruction> {
    match k {
        Kind::Plus => Some(Instruction::ADD),
        Kind::Minus => Some(Instruction::SUB),
        Kind::Product => Some(Instruction::PRODUCT),
        Kind::Divide => Some(Instruction::DIVIDE),
        Kind::Mod => Some(Instruction::MOD),
        Kind::LT => Some(Instruction::CLT),
        Kind::LT_OR_EQ => Some(Instruction::CLTE),
        Kind::GT => Some(Instruction::CGT),
        Kind::GT_OR_EQ => Some(Instruction::CGTE),
        Kind::EQ => Some(Instruction::CEQ),
        Kind::NOT_EQ => Some(Instruction::CNEQ),
        Kind::And => Some(Instruction::AND),
        Kind::Or => Some(Instruction::OR),
        Kind::Bit_And => Some(Instruction::BAND),
        Kind::Bit_Or => Some(Instruction::BOR),
        _ => None,
    }
}

/// The instruction of a prefix operator, if the compiler supports it.
pub open spec fn prefix_ins(k: Kind) -> Option<Instruction> {
    match k {
        Kind::Bang => Some(Instruction::BANG),
        Kind::Minus => Some(Instruction::NEG),
        _ => None,
    }
}

/// Push a constant and emit the instruction that loads it.
pub open spec fn c_const(s: CompV, obj: ObjectV) -> CRes {
    let s1 = CompV { constants: s.constants.push(obj), ..s };
    match c_emit(s1, Instruction::CONST { idx: (s1.constants.len() - 1) as usize }) {
        (s2, Ok(_)) => Some((s2, Ok(()))),
        (s2, Err(e)) => Some((s2, Err(e))),
    }
}

/// Compile statements in order, stopping at the first error.
pub open spec fn c_stms(s: CompV, ss: Seq<Statement>) -> CRes
    decreases ss, 0int,
{
    if ss.len() == 0 {
        Some((s, Ok(())))
    } else {
        match c_stm(s, ss[0]) {
            None => None,
            Some((s1, Err(e))) => Some((s1, Err(e))),
            Some((s1, Ok(()))) => c_stms(s1, ss.drop_first()),
        }
    }
}

/// Compile expressions in order, stopping at the first error.
pub open spec fn c_exps(s: CompV, es: Seq<Expression>) -> CRes
    decreases es, 0int,
{
    if es.len() == 0 {
        Some((s, Ok(())))
    } else {
        match c_exp(s, es[0]) {
            None => None,
            Some((s1, Err(e))) => Some((s1, Err(e))),
            Some((s1, Ok(()))) => c_exps(s1, es.drop_first()),
        }
    }
}

pub open spec fn c_stm(s: CompV, stm: Statement) -> CRes
    decreases stm, 0int,
{
    match stm {
        Statement::ExpressionStatement(x) => match x.expression {
            None => None,
            Some(e) => match c_exp(s, e) {
                None => None,
                Some((s1, Err(er))) => Some((s1, Err(er))),
                Some((s1, Ok(()))) => Some(c_emit_r(s1, Instruction::POP)),
            },
        },
        Statement::LetStatement(x) => match c_define(s, x.identifier.value@) {
            None => None,
            Some((s1, idx)) => match x.value {
                None => None,
                Some(e) => match c_exp(s1, e) {
                    None => None,
                    Some((s2, Err(er))) => Some((s2, Err(er))),
                    Some((s2, Ok(()))) => Some(c_emit_r(s2, store_ins(s2.table, idx))),
                },
            },
        },
        Statement::ReturnStatement(x) => match x.value {
            Some(e) => match c_exp(s, e) {
                None => None,
                Some((s1, Err(er))) => Some((s1, Err(er))),
                Some((s1, Ok(()))) => Some(c_emit_r(s1, Instruction::RETV)),
            },
            None => Some(c_emit_r(s, Instruction::RETN)),
        },
        Statement::BlockStatement(b) => c_stms(s, b.statements@),
    }
}

pub open spec fn c_exp(s: CompV, e: Expression) -> CRes
    decreases e, 0int,
{
    match e {
        Expression::Identifier(id) => {
            let (t1, r) = resolve(s.table, id.value@);
            let s1 = CompV { table: t1, ..s };
            match r {
                Some(sym) => Some(c_emit_r(s1, load_ins(sym))),
                None => Some((s1, Err(CErr::IdentifierNotFound(id.value@)))),
            }
        },
        Expression::IntegerLiteral(l) => c_const(s, ObjectV::Int(l.value)),
        Expression::BooleanLiteral(l) => c_const(s, ObjectV::Bool(l.value)),
        Expression::StringLiteral(l) => c_const(s, ObjectV::String(l.value@)),
        Expression::FunctionLiteral(lit) => c_func(s, lit),
        Expression::ArrayLiteral(a) => match c_exps(s, a.elements@) {
            None => None,
            Some((s1, Err(e))) => Some((s1, Err(e))),
            Some((s1, Ok(()))) => Some(c_emit_r(s1, Instruction::ARRAY { count: a.elements@.len() as usize })),
        },
        Expression::InfixExpression(x) => match c_exp(s, *x.right) {
            None => None,
            Some((s1, Err(e))) => Some((s1, Err(e))),
            Some((s1, Ok(()))) => match c_exp(s1, *x.left) {
                None => None,
                Some((s2, Err(e))) => Some((s2, Err(e))),
                Some((s2, Ok(()))) => match infix_ins(x.operator.kind) {
                    Some(ins) => Some(c_emit_r(s2, ins)),
                    None => None,
                },
            },
        },
        Expression::PrefixExpression(x) => match c_exp(s, *x.right) {
            None => None,
            Some((s1, Err(e))) => Some((s1, Err(e))),
            Some((s1, Ok(()))) => match prefix_ins(x.token.kind) {
                Some(ins) => Some(c_emit_r(s1, ins)),
                None => None,
            },
        },
        Expression::IfExpression(x) => c_if(s, x),
        Expression::CallExpression(x) => match c_exp(s, *x.function) {
            None => None,
            Some((s1, Err(e))) => Some((s1, Err(e))),
            Some((s1, Ok(()))) => match c_exps(s1, x.arguments@) {
                None => None,
                Some((s2, Err(e))) => Some((s2, Err(e))),
                Some((s2, Ok(()))) => Some(c_emit_r(s2, Instruction::CALL { arg_len: x.arguments@.len() as usize })),
            },
        },
        Expression::IndexExpression(x) => match c_exp(s, *x.left) {
            None => None,
            Some((s1, Err(e))) => Some((s1, Err(e))),
            Some((s1, Ok(()))) => match c_exp(s1, *x.index) {
                None => None,
                Some((s2, Err(e))) => Some((s2, Err(e))),
                Some((s2, Ok(()))) => Some(c_emit_r(s2, Instruction::INDEX)),
            },
        },
    }
}

/// The alternative branch of an `if`, after the consequence: jump over
/// it, patch the conditional jump to land on it, compile it and patch the
/// jump over it.
pub open spec fn c_if_tail(s: CompV, alt: Option<crate::ast::BlockStatement>, jc: usize) -> CRes
    decreases alt, 0int,
{
    match alt {
        Some(b) => match c_emit(s, Instruction::JMP { idx: 0 }) {
            (s5, Err(e)) => Some((s5, Err(e))),
            (s5, Ok(ja)) => match c_update(s5, Instruction::JNS { idx: code(s5).len() as usize }, jc) {
                None => None,
                Some(s6) => match c_stms(s6, b.statements@) {
                    None => None,
                    Some((s7, Err(e))) => Some((s7, Err(e))),
                    Some((s7, Ok(()))) => match c_remove_last_if(s7, Instruction::POP) {
                        None => None,
                        Some(s8) => match c_update(s8, Instruction::JMP { idx: code(s8).len() as usize }, ja) {
                            None => None,
                            Some(s9) => Some((s9, Ok(()))),
                        },
                    },
                },
            },
        },
        None => match c_update(s, Instruction::JNS { idx: code(s).len() as usize }, jc) {
            None => None,
            Some(s5) => Some((s5, Ok(()))),
        },
    }
}

pub open spec fn c_if(s: CompV, x: IfExpression) -> CRes
    decreases x, 0int,
{
    match c_exp(s, *x.condition) {
        None => None,
        Some((s1, Err(e))) => Some((s1, Err(e))),
        Some((s1, Ok(()))) => match c_emit(s1, Instruction::JNS { idx: 0 }) {
            (s2, Err(e)) => Some((s2, Err(e))),
            (s2, Ok(jc)) => match c_stms(s2, x.consequence.statements@) {
                None => None,
                Some((s3, Err(e))) => Some((s3, Err(e))),
                Some((s3, Ok(()))) => match c_remove_last_if(s3, Instruction::POP) {
                    None => None,
                    Some(s4) => c_if_tail(s4, x.alternative, jc),
                },
            },
        },
    }
}

/// The function's scope after its body is compiled and it has returned.
pub open spec fn c_func_body(s: CompV, lit: FunctionLiteral) -> CRes
    decreases lit, 0int,
{
    let s1 = c_enter(s);
    let s2 = match lit.ident {
        Some(id) => CompV {
            table: TableV {
                defs: s1.table.defs.push(SymbolV { name: id.value@, scope: Scope::Function, index: 0 }),
                ..s1.table
            },
            ..s1
        },
        None => s1,
    };
    match c_define_all(s2, lit.parameters@) {
        None => None,
        Some(s3) => match c_stms(s3, lit.body.statements@) {
            None => None,
            Some((s4, Err(e))) => Some((s4, Err(e))),
            Some((s4, Ok(()))) => match c_update_last_if(s4, Instruction::POP, Instruction::RETV) {
                None => None,
                Some((s5, changed)) => if changed {
                    Some((s5, Ok(())))
                } else {
                    Some(c_emit_r(s5, Instruction::RETN))
                },
            },
        },
    }
}

/// After a function's scope is closed: load its free values, add it to the
/// constants and emit the closure (and, for a named function not bound by
/// `let`, store it under its name).
pub open spec fn c_closure(
    s: CompV,
    lit: FunctionLiteral,
    body: Seq<u8>,
    free_syms: Seq<SymbolV>,
    local_len: usize,
) -> CRes {
    let (s8, loaded) = c_load_all(s, free_syms);
    let s9 = CompV {
        constants: s8.constants.push(ObjectV::CompiledFunction(FunV {
            instructions: body,
            local_len,
            arg_len: #[verifier::truncate] (lit.parameters@.len() as usize),
        })),
        ..s8
    };
    match loaded {
        Err(e) => Some((s8, Err(e))),
        Ok(()) => match c_emit(s9, Instruction::CLOSURE { idx: (s9.constants.len() - 1) as usize, free: free_syms.len() as usize }) {
            (s10, Err(e)) => Some((s10, Err(e))),
            (s10, Ok(_)) => match lit.ident {
                Some(id) => if !lit.is_let_bind {
                    match c_define(s10, id.value@) {
                        None => None,
                        Some((s11, idx)) => Some(c_emit_r(s11, store_ins(s11.table, idx))),
                    }
                } else {
                    Some((s10, Ok(())))
                },
                None => Some((s10, Ok(()))),
            },
        },
    }
}

/// Compile a function literal: compile its body in a new scope, close the
/// scope and make the closure.
pub open spec fn c_func(s: CompV, lit: FunctionLiteral) -> CRes
    decreases lit, 1int,
{
    match c_func_body(s, lit) {
        None => None,
        Some((s6, Err(e))) => Some((s6, Err(e))),
        Some((s6, Ok(()))) => match c_leave(s6) {
            None => None,
            Some((s7, body)) => c_closure(s7, lit, body, s6.table.free, s6.table.len),
        },
    }
}


/// Whether a function literal occurs in `e`: only where one does can a
/// new scope be asked for.
pub open spec fn fn_in_exp(e: Expression) -> bool
    decreases e, 0int,
{
    match e {
        Expression::FunctionLiteral(_) => true,
        Expression::ArrayLiteral(a) => fn_in_exps(a.elements@),
        Expression::InfixExpression(x) => fn_in_exp(*x.right) || fn_in_exp(*x.left),
        Expression::PrefixExpression(x) => fn_in_exp(*x.right),
        Expression::IfExpression(x) => fn_in_exp(*x.condition) || fn_in_stms(x.consequence.statements@) || match x.alternative {
            Some(b) => fn_in_stms(b.statements@),
            None => false,
        },
        Expression::CallExpression(x) => fn_in_exp(*x.function) || fn_in_exps(x.arguments@),
        Expression::IndexExpression(x) => fn_in_exp(*x.left) || fn_in_exp(*x.index),
        _ => false,
    }
}

pub open spec fn fn_in_exps(es: Seq<Expression>) -> bool
    decreases es, 0int,
{
    es.len() > 0 && (fn_in_exp(es[0]) || fn_in_exps(es.drop_first()))
}

pub open spec fn fn_in_stm(stm: Statement) -> bool
    decreases stm, 0int,
{
    match stm {
        Statement::ExpressionStatement(x) => match x.expression {
            Some(e) => fn_in_exp(e),
            None => false,
        },
        Statement::LetStatement(x) => match x.value {
            Some(e) => fn_in_exp(e),
            None => false,
        },
        Statement::ReturnStatement(x) => match x.value {
            Some(e) => fn_in_exp(e),
            None => false,
        },
        Statement::BlockStatement(b) => fn_in_stms(b.statements@),
    }
}

pub open spec fn fn_in_stms(ss: Seq<Statement>) -> bool
    decreases ss, 0int,
{
    ss.len() > 0 && (fn_in_stm(ss[0]) || fn_in_stms(ss.drop_first()))
}

/// A function literal in one of the statements is one in all of them.
pub proof fn lemma_fn_in_stms(ss: Seq<Statement>, i: int)
    requires
        0 <= i < ss.len(),
        fn_in_stm(ss[i]),
    ensures
        fn_in_stms(ss),
    decreases i,
{
    if i > 0 {
        lemma_fn_in_stms(ss.drop_first(), i - 1);
    }
}

/// A function literal in one of the expressions is one in all of them.
pub proof fn lemma_fn_in_exps(es: Seq<Expression>, i: int)
    requires
        0 <= i < es.len(),
        fn_in_exp(es[i]),
    ensures
        fn_in_exps(es),
    decreases i,
{
    if i > 0 {
        lemma_fn_in_exps(es.drop_first(), i - 1);
    }
}

/// Whether compiling `e` from `s` fails before it asks for any memory: an
/// operand compiled first (the right one of an infix expression, the
/// condition of an `if`, the callee, the indexed value, the first element)
/// fails so, down to a name that resolves to nothing. Every other
/// expression emits an instruction, or opens a function's scope, before it
/// can end.
pub open spec fn quiet_exp(s: CompV, e: Expression) -> bool
    decreases e, 0int,
{
    match e {
        Expression::Identifier(id) => resolve(s.table, id.value@).1 is None,
        Expression::ArrayLiteral(a) => quiet_exps(s, a.elements@),
        Expression::InfixExpression(x) => quiet_exp(s, *x.right),
        Expression::PrefixExpression(x) => quiet_exp(s, *x.right),
        Expression::IfExpression(x) => quiet_exp(s, *x.condition),
        Expression::CallExpression(x) => quiet_exp(s, *x.function),
        Expression::IndexExpression(x) => quiet_exp(s, *x.left),
        _ => false,
    }
}

/// Whether compiling `es` from `s` fails before it asks for any memory: the
/// first expression does.
pub open spec fn quiet_exps(s: CompV, es: Seq<Expression>) -> bool
    decreases es, 0int,
{
    es.len() > 0 && quiet_exp(s, es[0])
}

/// A statement that compiles to nothing: a block of such statements.
pub open spec fn noop_stm(stm: Statement) -> bool
    decreases stm, 0int,
{
    match stm {
        Statement::BlockStatement(b) => noop_stms(b.statements@),
        _ => false,
    }
}

/// Statements that compile to nothing.
pub open spec fn noop_stms(ss: Seq<Statement>) -> bool
    decreases ss, 0int,
{
    ss.len() == 0 || (noop_stm(ss[0]) && noop_stms(ss.drop_first()))
}

/// Whether compiling `stm` from `s` fails before it asks for any memory:
/// its expression (a `let`'s value, after the name is defined) does.
pub open spec fn quiet_stm(s: CompV, stm: Statement) -> bool
    decreases stm, 0int,
{
    match stm {
        Statement::ExpressionStatement(x) => match x.expression {
            Some(e) => quiet_exp(s, e),
            None => false,
        },
        Statement::LetStatement(x) => match (c_define(s, x.identifier.value@), x.value) {
            (Some((s1, _)), Some(e)) => quiet_exp(s1, e),
            _ => false,
        },
        Statement::ReturnStatement(x) => match x.value {
            Some(e) => quiet_exp(s, e),
            None => false,
        },
        Statement::BlockStatement(b) => quiet_stms(s, b.statements@),
    }
}

/// Whether compiling `ss` from `s` fails before it asks for any memory:
/// after statements that compile to nothing, one does.
pub open spec fn quiet_stms(s: CompV, ss: Seq<Statement>) -> bool
    decreases ss, 0int,
{
    ss.len() > 0 && (quiet_stm(s, ss[0]) || (noop_stm(ss[0]) && quiet_stms(s, ss.drop_first())))
}

/// Statements the compiler accepts without panicking whatever the state:
/// expression statements and `let` statements carry their expression, and
/// every operator is one the compiler knows.
pub open spec fn ok_stms(ss: Seq<Statement>) -> bool
    decreases ss, 0int,
{
    ss.len() == 0 || (ok_stm(ss[0]) && ok_stms(ss.drop_first()))
}

pub open spec fn ok_exps(es: Seq<Expression>) -> bool
    decreases es, 0int,
{
    es.len() == 0 || (ok_exp(es[0]) && ok_exps(es.drop_first()))
}

pub open spec fn ok_stm(stm: Statement) -> bool
    decreases stm, 0int,
{
    match stm {
        Statement::ExpressionStatement(x) => match x.expression {
            Some(e) => ok_exp(e),
            None => false,
        },
        Statement::LetStatement(x) => match x.value {
            Some(e) => ok_exp(e),
            None => false,
        },
        Statement::ReturnStatement(x) => match x.value {
            Some(e) => ok_exp(e),
            None => true,
        },
        Statement::BlockStatement(b) => ok_stms(b.statements@),
    }
}

pub open spec fn ok_exp(e: Expression) -> bool
    decreases e, 0int,
{
    match e {
        Expression::FunctionLiteral(lit) => ok_stms(lit.body.statements@),
        Expression::ArrayLiteral(a) => ok_exps(a.elements@),
        Expression::InfixExpression(x) => ok_exp(*x.right) && ok_exp(*x.left) && infix_ins(x.operator.kind) is Some,
        Expression::PrefixExpression(x) => ok_exp(*x.right) && prefix_ins(x.token.kind) is Some,
        Expression::IfExpression(x) => ok_exp(*x.condition) && ok_stms(x.consequence.statements@) && match x.alternative {
            Some(b) => ok_stms(b.statements@),
            None => true,
        },
        Expression::CallExpression(x) => ok_exp(*x.function) && ok_exps(x.arguments@),
        Expression::IndexExpression(x) => ok_exp(*x.left) && ok_exp(*x.index),
        _ => true,
    }
}

/// One step of compiling a statement list from index `i`.
pub proof fn lemma_c_stms_step(s: CompV, ss: Seq<Statement>, i: int)
    requires
        0 <= i < ss.len(),
    ensures
        c_stms(s, ss.subrange(i, ss.len() as int)) == match c_stm(s, ss[i]) {
            None => None,
            Some((s1, Err(e))) => Some((s1, Err(e))),
            Some((s1, Ok(()))) => c_stms(s1, ss.subrange(i + 1, ss.len() as int)),
        },
        ok_stms(ss.subrange(i, ss.len() as int)) ==> ok_stm(ss[i]) && ok_stms(
            ss.subrange(i + 1, ss.len() as int),
        ),
        quiet_stms(s, ss.subrange(i, ss.len() as int)) == (quiet_stm(s, ss[i]) || (noop_stm(ss[i]) && quiet_stms(
            s,
            ss.subrange(i + 1, ss.len() as int),
        ))),
        noop_stms(ss.subrange(i, ss.len() as int)) == (noop_stm(ss[i]) && noop_stms(
            ss.subrange(i + 1, ss.len() as int),
        )),
{
    assert(ss.subrange(i, ss.len() as int).drop_first() =~= ss.subrange(i + 1, ss.len() as int));
}

/// One step of compiling an expression list from index `i`.
pub proof fn lemma_c_exps_step(s: CompV, es: Seq<Expression>, i: int)
    requires
        0 <= i < es.len(),
    ensures
        c_exps(s, es.subrange(i, es.len() as int)) == match c_exp(s, es[i]) {
            None => None,
            Some((s1, Err(e))) => Some((s1, Err(e))),
            Some((s1, Ok(()))) => c_exps(s1, es.subrange(i + 1, es.len() as int)),
        },
        ok_exps(es.subrange(i, es.len() as int)) ==> ok_exp(es[i]) && ok_exps(
            es.subrange(i + 1, es.len() as int),
        ),
{
    assert(es.subrange(i, es.len() as int).drop_first() =~= es.subrange(i + 1, es.len() as int));
}

/// One step of loading a symbol list from index `i`.
pub proof fn lemma_c_load_all_step(s: CompV, syms: Seq<SymbolV>, i: int)
    requires
        0 <= i < syms.len(),
    ensures
        c_load_all(s, syms.subrange(i, syms.len() as int)) == match c_emit(s, load_ins(syms[i])) {
            (t, Ok(_)) => c_load_all(t, syms.subrange(i + 1, syms.len() as int)),
            (t, Err(e)) => (t, Err(e)),
        },
{
    assert(syms.subrange(i, syms.len() as int).drop_first() =~= syms.subrange(i + 1, syms.len() as int));
}

/// One step of defining a parameter list from index `i`.
pub proof fn lemma_c_define_all_step(s: CompV, names: Seq<Identifier>, i: int)
    requires
        0 <= i < names.len(),
    ensures
        c_define_all(s, names.subrange(i, names.len() as int)) == match c_define(s, names[i].value@) {
            Some((t, _)) => c_define_all(t, names.subrange(i + 1, names.len() as int)),
            None => None,
        },
{
    assert(names.subrange(i, names.len() as int).drop_first() =~= names.subrange(i + 1, names.len() as int));
}

/// What the instruction an infix operator compiles to does on the values
/// of its operands, `a` of the left one (compiled last, so on top of the
/// stack) and `b` of the right one: each comparison pushes the truth of
/// that very comparison (`>=` of `>=`, not of `>`), each arithmetic or
/// bitwise operator pushes the result where it is defined, and `&&`, `||`
/// combine truth values.
pub proof fn law_infix_meaning(k: Kind, t: VmV, a: i64, b: i64, p: bool, q: bool)
    requires
        infix_ins(k) is Some,
    ensures
        ({
            let ins = infix_ins(k)->0;
            let r = binary(t, ins, ObjectV::Int(a), ObjectV::Int(b));
            &&& k == Kind::GT ==> r == push_finish(t, ObjectV::Bool(a > b), ins)
            &&& k == Kind::GT_OR_EQ ==> r == push_finish(t, ObjectV::Bool(a >= b), ins)
            &&& k == Kind::LT ==> r == push_finish(t, ObjectV::Bool(a < b), ins)
            &&& k == Kind::LT_OR_EQ ==> r == push_finish(t, ObjectV::Bool(a <= b), ins)
            &&& k == Kind::EQ ==> r == push_finish(t, ObjectV::Bool(a == b), ins)
            &&& k == Kind::NOT_EQ ==> r == push_finish(t, ObjectV::Bool(a != b), ins)
            &&& k == Kind::Plus && in_i64(a + b) ==> r == push_finish(t, ObjectV::Int((a + b) as i64), ins)
            &&& k == Kind::Minus && in_i64(a - b) ==> r == push_finish(t, ObjectV::Int((a - b) as i64), ins)
            &&& k == Kind::Product && in_i64(a * b) ==> r == push_finish(t, ObjectV::Int((a * b) as i64), ins)
            &&& k == Kind::Divide && b != 0 && !(a == i64::MIN && b == -1) ==> r == push_finish(
                t,
                ObjectV::Int(trunc_div(a as int, b as int) as i64),
                ins,
            )
            &&& k == Kind::Mod && b != 0 && !(a == i64::MIN && b == -1) ==> r == push_finish(
                t,
                ObjectV::Int(trunc_rem(a as int, b as int) as i64),
                ins,
            )
            &&& k == Kind::Bit_And ==> r == push_finish(t, ObjectV::Int(a & b), ins)
            &&& k == Kind::Bit_Or ==> r == push_finish(t, ObjectV::Int(a | b), ins)
            &&& k == Kind::And ==> binary(t, ins, ObjectV::Bool(p), ObjectV::Bool(q)) == push_finish(
                t,
                ObjectV::Bool(p && q),
                ins,
            )
            &&& k == Kind::Or ==> binary(t, ins, ObjectV::Bool(p), ObjectV::Bool(q)) == push_finish(
                t,
                ObjectV::Bool(p || q),
                ins,
            )
        }),
{
}

/// Different infix operators compile to different instructions, and so do
/// the two prefix operators.
pub proof fn law_operators_distinct(k1: Kind, k2: Kind)
    ensures
        infix_ins(k1) is Some && infix_ins(k1) == infix_ins(k2) ==> k1 == k2,
        prefix_ins(k1) is Some && prefix_ins(k1) == prefix_ins(k2) ==> k1 == k2,
{
}

/// What the instruction a prefix operator compiles to does to the value of
/// its operand on top of the stack: `!` negates a truth value and `-` an
/// integer (where the negation is one).
pub proof fn law_prefix_meaning(k: Kind, s: VmV, t: VmV, p: bool, a: i64)
    requires
        prefix_ins(k) is Some,
    ensures
        ({
            let ins = prefix_ins(k)->0;
            &&& k == Kind::Bang && pop_some(s) == Some((ObjectV::Bool(p), t)) ==> exec_ins(s, ins) == push_finish(
                t,
                ObjectV::Bool(!p),
                ins,
            )
            &&& k == Kind::Minus && a != i64::MIN && pop_some(s) == Some((ObjectV::Int(a), t)) ==> exec_ins(s, ins)
                == push_finish(t, ObjectV::Int((-a) as i64), ins)
        }),
{
}

} // verus!
