use vstd::prelude::*;

use super::compiler_spec::{
    c_closure, c_define, c_define_all, c_emit, c_emit_r, c_enter, c_exp, c_exps, c_func, c_func_body, c_if, c_if_tail,
    c_leave, c_load_all, fn_in_exp, fn_in_exps, fn_in_stm, fn_in_stms, lemma_fn_in_exps, lemma_fn_in_stms, noop_stm, noop_stms, quiet_exp, quiet_exps, quiet_stm, quiet_stms, c_remove_last_if, c_stm, c_stms, c_update, c_update_last_if, code, infix_ins,
    lemma_c_define_all_step, lemma_c_exps_step, lemma_c_load_all_step, lemma_c_stms_step, load_ins,
    ok_exp, ok_exps, ok_stm, ok_stms, prefix_ins, CErr, CRes, CompV,
};
use super::errors::{CompileError, InstructionsError};
use super::instruction::Instruction;
use super::instructions::Instructions;
use super::symbol::{
    depth, lemma_resolve_depth, symbols_view, Scope as SymScope, Symbol, SymbolTable, SymbolV, TableV,
};
use super::Bytecode;
use crate::ast::{
    ArrayLiteral, BlockStatement, BooleanLiteral, CallExpression, Expression, ExpressionStatement,
    FunctionLiteral, Identifier, IfExpression, IndexExpression, InfixExpression, IntegerLiteral,
    LetStatement, PrefixExpression, Program, ReturnStatement, Statement, StringLiteral,
};
use crate::object::{objects_view, Bool, CompiledFunction, Int, Object, ObjectV, StringObject};
use crate::token::Kind;

verus! {

/// Hold current function's instructions
#[derive(Debug)]
struct Scope {
    /// current function's instructions
    instructions: Instructions,
}

impl Scope {
    fn new(instructions: Instructions) -> (res: Self)
        ensures
            res.instructions@ == instructions@,
    {
        Self { instructions }
    }
}

#[derive(Debug)]
struct InstructionInfo {
    instruction: Instruction,
    pos: usize,
}

pub struct Compiler {
    /// constants of Program
    constants: Vec<Object>,
    /// stack memory of function's instruction aka [`Scope`]
    scopes: Vec<Scope>,
    /// index of current_function's scope
    scope_idx: usize,
    /// symbol_table which holds symbol; never None
    symbol_table: Option<SymbolTable>,
    /// last written instruction's information
    last_instruction: Option<InstructionInfo>,
    /// whether every memory request of the current compilation was granted
    alloc_ok: Ghost<bool>,
}

spec fn scopes_view(s: Seq<Scope>) -> Seq<Seq<u8>> {
    Seq::new(s.len(), |i: int| s[i].instructions@)
}

/// A compile error as a value.
pub open spec fn err_view(e: CompileError) -> CErr {
    match e {
        CompileError::NotFinishedInMain => CErr::NotFinishedInMain,
        CompileError::IdentifierNotFound(id) => CErr::IdentifierNotFound(id.value@),
        CompileError::InstructionWriteError(InstructionsError::TooLargeToAllocate) => CErr::WriteFailed,
        _ => CErr::Other,
    }
}

pub open spec fn res_view<T>(r: Result<T, CompileError>) -> Result<(), CErr> {
    match r {
        Ok(_) => Ok(()),
        Err(e) => Err(err_view(e)),
    }
}

/// The compiler state a fresh compiler starts from.
pub open spec fn initial_comp() -> CompV {
    CompV {
        constants: Seq::empty(),
        scopes: seq![Seq::empty()],
        scope_idx: 0,
        table: TableV { defs: Seq::empty(), len: 0, outer: None, free: Seq::empty() },
        last: None,
    }
}

impl View for Compiler {
    type V = CompV;

    closed spec fn view(&self) -> CompV {
        CompV {
            constants: objects_view(self.constants@),
            scopes: scopes_view(self.scopes@),
            scope_idx: self.scope_idx,
            table: self.symbol_table->0@,
            last: match self.last_instruction {
                Some(info) => Some((info.instruction, info.pos)),
                None => None,
            },
        }
    }
}

impl Compiler {
    pub closed spec fn wf(&self) -> bool {
        &&& self.symbol_table is Some
        &&& self.scopes@.len() == self.scope_idx + 1
        &&& depth(self@.table) == self.scope_idx
    }

    /// Whether every memory request of the current compilation was granted.
    pub closed spec fn alloc_ok(&self) -> bool {
        self.alloc_ok@
    }

    /// Creates a new [`Compiler`].
    ///
    /// # Errors [`CompileError::CreationFailed`]
    ///
    /// This function will return an error if inner instructions creation
    /// have failed
    pub fn create() -> (res: Result<Self, CompileError>)
        ensures
            match res {
                Ok(c) => c.wf() && c.alloc_ok() && c@ == initial_comp(),
                Err(e) => e matches CompileError::CreationFailed(i) && i is AllocationFailed,
            },
    {
        let inst = match Instructions::create() {
            Ok(i) => i,
            Err(e) => return Err(CompileError::CreationFailed(e)),
        };
        let mut scopes: Vec<Scope> = Vec::new();
        // this Scope is will be main function
        scopes.push(Scope { instructions: inst });
        let c = Self {
            constants: Vec::new(),
            scopes,
            scope_idx: 0,
            symbol_table: Some(SymbolTable::new()),
            last_instruction: None,
            alloc_ok: Ghost(true),
        };
        assert(objects_view(c.constants@) =~= Seq::<ObjectV>::empty());
        assert(scopes_view(c.scopes@) =~= seq![Seq::<u8>::empty()]);
        Ok(c)
    }

    /// Generate bytecode as compile result
    ///
    /// # Errors [`CompileError::NotFinishedInMain`]
    ///
    /// This function will return an error if
    /// scope_idx is not 0 ( it means that compiling had not ended in main )
    pub fn bytecode(self) -> (res: Result<Bytecode, CompileError>)
        requires
            self.wf(),
        ensures
            match res {
                Ok(b) => self@.scope_idx == 0 && objects_view(b.constants@) == self@.constants
                    && b.instructions@ == code(self@),
                Err(e) => self@.scope_idx != 0 && e is NotFinishedInMain,
            },
    {
        if self.scope_idx != 0 {
            return Err(CompileError::NotFinishedInMain);
        }
        let mut constants: Vec<Object> = Vec::new();
        let mut i: usize = 0;
        while i < self.constants.len()
            invariant
                i <= self.constants@.len(),
                constants@.len() == i,
                forall|j: int| 0 <= j < i ==> (#[trigger] constants@[j])@ == self.constants@[j]@,
            decreases self.constants@.len() - i,
        {
            constants.push(self.constants[i].clone());
            i = i + 1;
        }
        assert(objects_view(constants@) =~= objects_view(self.constants@));
        Ok(Bytecode { constants, instructions: self.scopes[self.scope_idx].instructions.clone() })
    }

    fn emit(&mut self, ins: Instruction) -> (res: Result<usize, CompileError>)
        requires
            old(self).wf(),
        ensures
            emitted(*old(self), *final(self), ins, res),
    {
        let idx = self.scope_idx;
        let res = self.scopes[idx].instructions.add_instruction(ins);
        match res {
            Err(e) => {
                assert(scopes_view(self.scopes@) =~= old(self)@.scopes);
                if let InstructionsError::AllocationFailed(_) = e {
                    self.alloc_ok = Ghost(false);
                }
                Err(CompileError::InstructionWriteError(e))
            },
            Ok(pos) => {
                self.last_instruction = Some(InstructionInfo { instruction: ins, pos });
                assert(scopes_view(self.scopes@) =~= c_emit(old(self)@, ins).0.scopes);
                Ok(pos)
            },
        }
    }

    fn current_length(&self) -> (res: usize)
        requires
            self.wf(),
        ensures
            res == code(self@).len(),
    {
        self.scopes[self.scope_idx].instructions.length()
    }

    /// Returns the next offset of this [`Compiler`].
    fn next_offset(&self) -> (res: usize)
        requires
            self.wf(),
        ensures
            res == code(self@).len(),
    {
        self.current_length()
    }

    /// Update instruction at `offset` with given `ins`; an offset whose
    /// instruction would not fit in the current scope is left alone.
    fn update(&mut self, ins: Instruction, offset: usize)
        requires
            old(self).wf(),
        ensures
            final(self).wf(),
            final(self).alloc_ok() == old(self).alloc_ok(),
            final(self)@.scope_idx == old(self)@.scope_idx,
            final(self)@.table == old(self)@.table,
            final(self)@.last == old(self)@.last,
            c_update(old(self)@, ins, offset) matches Some(t) ==> final(self)@ == t,
    {
        let len = self.current_length();
        let ins_len = ins.opcode().length();
        proof {
            ins.lemma_operands_count();
        }
        if offset <= len && ins_len <= len - offset {
            let idx = self.scope_idx;
            self.scopes[idx].instructions.update_instruction(ins, offset);
            assert(scopes_view(self.scopes@) =~= c_update(old(self)@, ins, offset)->0.scopes);
        }
    }

    /// Update last_instruction if it is `ins` or `with`; returns true if
    /// the instruction was changed.
    fn update_last_instruction_if(&mut self, ins: Instruction, with: Instruction) -> (res: bool)
        requires
            old(self).wf(),
        ensures
            final(self).wf(),
            final(self).alloc_ok() == old(self).alloc_ok(),
            final(self)@.scope_idx == old(self)@.scope_idx,
            final(self)@.table == old(self)@.table,
            c_update_last_if(old(self)@, ins, with) matches Some((t, b)) ==> final(self)@ == t && res == b,
    {
        let found = match &self.last_instruction {
            Some(info) => info.instruction == ins || info.instruction == with,
            None => false,
        };
        if found {
            let pos = match &self.last_instruction {
                Some(info) => info.pos,
                None => 0,
            };
            self.update(with, pos);
            self.last_instruction = Some(InstructionInfo { instruction: with, pos });
            return true;
        }
        false
    }

    /// Remove last instruction if `self.last_instruction == ins`
    fn remove_last_instruction_if(&mut self, ins: Instruction)
        requires
            old(self).wf(),
        ensures
            final(self).wf(),
            final(self).alloc_ok() == old(self).alloc_ok(),
            final(self)@.scope_idx == old(self)@.scope_idx,
            final(self)@.table == old(self)@.table,
            c_remove_last_if(old(self)@, ins) matches Some(t) ==> final(self)@ == t,
    {
        let found = match &self.last_instruction {
            Some(info) => info.instruction == ins,
            None => false,
        };
        if found {
            self.remove_last_instruction();
        }
    }

    /// Cut the current scope back to the last instruction's offset.
    fn remove_last_instruction(&mut self)
        requires
            old(self).wf(),
            old(self)@.last is Some,
        ensures
            final(self).wf(),
            final(self).alloc_ok() == old(self).alloc_ok(),
            final(self)@.scope_idx == old(self)@.scope_idx,
            final(self)@.table == old(self)@.table,
            old(self)@.last.unwrap().1 <= code(old(self)@).len() ==> final(self)@ == (CompV {
                last: None,
                scopes: old(self)@.scopes.update(old(self)@.scope_idx as int, code(old(self)@).subrange(0, old(self)@.last.unwrap().1 as int)),
                ..old(self)@
            }),
    {
        let new_length = match &self.last_instruction {
            Some(info) => info.pos,
            None => 0,
        };
        let len = self.current_length();
        if new_length <= len {
            let idx = self.scope_idx;
            self.scopes[idx].instructions.remove_instruction(new_length);
        }
        self.last_instruction = None;
        assert(new_length <= len ==> scopes_view(self.scopes@) =~= old(self)@.scopes.update(old(self)@.scope_idx as int, code(old(self)@).subrange(0, new_length as int)));
    }

    /// create new scope and enclose current `self.symbol_table`
    fn enter_scope(&mut self) -> (res: Result<bool, CompileError>)
        requires
            old(self).wf(),
        ensures
            final(self).wf(),
            final(self).alloc_ok() ==> old(self).alloc_ok(),
            res is Ok ==> final(self).alloc_ok() == old(self).alloc_ok() && final(self)@ == c_enter(old(self)@),
            res is Err ==> final(self)@ == old(self)@ && !final(self).alloc_ok() && (res matches Err(e) && e is ScopeCreateFaild),
    {
        let inst = match Instructions::create() {
            Ok(i) => i,
            Err(e) => {
                self.alloc_ok = Ghost(false);
                return Err(CompileError::ScopeCreateFaild(e));
            },
        };
        let new_scope = Scope::new(inst);
        self.scopes.push(new_scope);
        self.scope_idx = self.scopes.len() - 1;
        let table = self.symbol_table.take().unwrap();
        self.symbol_table = Some(SymbolTable::enclose(table));
        assert(scopes_view(self.scopes@) =~= c_enter(old(self)@).scopes);
        Ok(true)
    }

    /// Leave [`Scope`] of this [`Compiler`]
    /// and return previous [`Scope`]
    fn leave_scope(&mut self) -> (res: Scope)
        requires
            old(self).wf(),
            old(self)@.scope_idx > 0,
        ensures
            final(self).wf(),
            final(self).alloc_ok() == old(self).alloc_ok(),
            c_leave(old(self)@) matches Some((t, body)) && final(self)@ == t && res.instructions@ == body,
    {
        let mut table = self.symbol_table.take().unwrap();
        proof {
            assert(table@.outer is Some);
        }
        let outer = table.get_outer();
        self.symbol_table = Some(outer);
        self.scope_idx -= 1;
        let s = self.scopes.pop().unwrap();
        assert(scopes_view(self.scopes@) =~= old(self)@.scopes.drop_last());
        s
    }

    fn load_symbol(&mut self, sym: &Symbol) -> (res: Result<usize, CompileError>)
        requires
            old(self).wf(),
        ensures
            emitted(*old(self), *final(self), load_ins(sym@), res),
    {
        let inst = match sym.scope() {
            SymScope::Global => Instruction::GETGLB { idx: sym.index() },
            SymScope::Local => Instruction::GETLCL { idx: sym.index() },
            SymScope::Free => Instruction::GETFREE { idx: sym.index() },
            SymScope::Function => Instruction::GETCUR,
        };
        self.emit(inst)
    }
}

/// What emitting `ins` does: the compiler stays well formed in the same
/// scope with the same table; an error is a write error that changes
/// nothing, and it clears the flag exactly when the allocator refused;
/// while the flag holds, the state and outcome are those of `c_emit`.
pub open spec fn emitted(pre: Compiler, post: Compiler, ins: Instruction, res: Result<usize, CompileError>) -> bool {
    &&& post.wf()
    &&& post@.scope_idx == pre@.scope_idx
    &&& post@.table == pre@.table
    &&& post.alloc_ok() == (pre.alloc_ok() && !refused(res))
    &&& res matches Err(e) ==> e is InstructionWriteError && post@ == pre@
    &&& post.alloc_ok() ==> post@ == c_emit(pre@, ins).0 && res_view(res) == c_emit_r(pre@, ins).1 && (res matches Ok(
        p,
    ) ==> c_emit(pre@, ins).1 == Ok::<usize, CErr>(p))
}

/// What every compile step keeps: a well-formed compiler, no shallower
/// than before, and an allocator refusal is never forgotten.
pub open spec fn progressed(pre: Compiler, post: Compiler) -> bool {
    &&& post.wf()
    &&& post@.scope_idx >= pre@.scope_idx
    &&& post.alloc_ok() ==> pre.alloc_ok()
}

/// An error that reports a memory request the allocator refused: a code
/// buffer that could not grow, or a new scope's buffer that could not be
/// made.
pub open spec fn is_refusal(e: CompileError) -> bool {
    ||| e matches CompileError::InstructionWriteError(InstructionsError::AllocationFailed(_))
    ||| e is ScopeCreateFaild
}

/// Whether a result reports that a new scope's buffer could not be made.
pub open spec fn scope_refused<T>(res: Result<T, CompileError>) -> bool {
    res matches Err(e) && e is ScopeCreateFaild
}

/// Whether a result reports a refused memory request.
pub open spec fn refused<T>(res: Result<T, CompileError>) -> bool {
    res matches Err(e) && is_refusal(e)
}

/// A compile step returns `Ok(true)` on success, never reports an
/// unfinished compilation or a failed creation; a refused memory request
/// ends it at once with that refusal; and when every memory request was
/// granted and the node compiles without panicking, it ends in the state
/// that `r` gives, with the outcome `r` gives.
pub open spec fn follows(post: Compiler, res: Result<bool, CompileError>, r: CRes) -> bool {
    &&& (res matches Ok(b) ==> b)
    &&& (res matches Err(e) ==> !(e is NotFinishedInMain) && !(e is CreationFailed))
    &&& post.alloc_ok() == !refused(res)
    &&& post.alloc_ok() ==> (r matches Some((t, v)) ==> post@ == t && res_view(res) == v)
}

/// The instruction of an infix operator.
fn infix_instruction(kind: Kind) -> (res: Option<Instruction>)
    ensures
        res == infix_ins(kind),
{
    match kind {
        Kind::Plus => Some(Instruction::ADD),
        Kind::Minus => Some(Instruction::SUB),
        Kind::Product => Some(Instruction::PRODUCT),
        Kind::Divide => Some(Instruction::DIVIDE),
        Kind::Mod => Some(Instruction::MOD),
        Kind::LT => Some(Instruction::CLT),
        Kind::LT_OR_EQ => Some(Instruction::CLTE),
        Kind::GT => Some(Instruction::CGT),
        Kind::GT_OR_EQ => Some(Instruction::CGTE),
        Kind::EQ => Some(Instruction::CEQ),
        Kind::NOT_EQ => Some(Instruction::CNEQ),
        Kind::And => Some(Instruction::AND),
        Kind::Or => Some(Instruction::OR),
        Kind::Bit_And => Some(Instruction::BAND),
        Kind::Bit_Or => Some(Instruction::BOR),
        _ => None,
    }
}

/// The instruction of a prefix operator.
fn prefix_instruction(kind: Kind) -> (res: Option<Instruction>)
    ensures
        res == prefix_ins(kind),
{
    match kind {
        Kind::Bang => Some(Instruction::BANG),
        Kind::Minus => Some(Instruction::NEG),
        _ => None,
    }
}

/// A statement list is compilable where each statement is.
proof fn lemma_ok_stms_each(ss: Seq<Statement>)
    ensures
        ok_stms(ss) == forall|j: int| 0 <= j < ss.len() ==> #[trigger] ok_stm(ss[j]),
    decreases ss.len(),
{
    if ss.len() > 0 {
        lemma_ok_stms_each(ss.drop_first());
        assert forall|j: int| 1 <= j < ss.len() implies ss.drop_first()[j - 1] == ss[j] by {}
        if ok_stm(ss[0]) && ok_stms(ss.drop_first()) {
            assert forall|j: int| 0 <= j < ss.len() implies #[trigger] ok_stm(ss[j]) by {
                if j > 0 {
                    assert(ok_stm(ss.drop_first()[j - 1]));
                }
            }
        }
        if forall|j: int| 0 <= j < ss.len() ==> #[trigger] ok_stm(ss[j]) {
            assert forall|j: int| 0 <= j < ss.drop_first().len() implies #[trigger] ok_stm(
                ss.drop_first()[j],
            ) by {
                assert(ok_stm(ss[j + 1]));
            }
            assert(ok_stm(ss[0]));
        }
    }
}

/// An expression list is compilable where each expression is.
proof fn lemma_ok_exps_each(es: Seq<Expression>)
    ensures
        ok_exps(es) == forall|j: int| 0 <= j < es.len() ==> #[trigger] ok_exp(es[j]),
    decreases es.len(),
{
    if es.len() > 0 {
        lemma_ok_exps_each(es.drop_first());
        assert forall|j: int| 1 <= j < es.len() implies es.drop_first()[j - 1] == es[j] by {}
        if ok_exp(es[0]) && ok_exps(es.drop_first()) {
            assert forall|j: int| 0 <= j < es.len() implies #[trigger] ok_exp(es[j]) by {
                if j > 0 {
                    assert(ok_exp(es.drop_first()[j - 1]));
                }
            }
        }
        if forall|j: int| 0 <= j < es.len() ==> #[trigger] ok_exp(es[j]) {
            assert forall|j: int| 0 <= j < es.drop_first().len() implies #[trigger] ok_exp(
                es.drop_first()[j],
            ) by {
                assert(ok_exp(es[j + 1]));
            }
            assert(ok_exp(es[0]));
        }
    }
}

/// Whether the program can be compiled without reaching a part of the
/// compiler that is not finished: an expression statement or a `let`
/// without a value, or an operator with no instruction.
pub fn compilable(src: &Program) -> (res: bool)
    ensures
        res == ok_stms(src.statements@),
{
    stms_compilable(&src.statements)
}

fn stms_compilable(stms: &Vec<Statement>) -> (res: bool)
    ensures
        res == ok_stms(stms@),
    decreases stms@, 0int,
{
    proof {
        lemma_ok_stms_each(stms@);
    }
    let mut i: usize = 0;
    while i < stms.len()
        invariant
            i <= stms@.len(),
            ok_stms(stms@) == forall|j: int| 0 <= j < stms@.len() ==> #[trigger] ok_stm(stms@[j]),
            forall|j: int| 0 <= j < i ==> #[trigger] ok_stm(stms@[j]),
        decreases stms@.len() - i,
    {
        if !stm_compilable(&stms[i]) {
            return false;
        }
        i = i + 1;
    }
    true
}

fn stm_compilable(stm: &Statement) -> (res: bool)
    ensures
        res == ok_stm(*stm),
    decreases stm, 0int,
{
    match stm {
        Statement::ExpressionStatement(x) => match &x.expression {
            Some(e) => exp_compilable(e),
            None => false,
        },
        Statement::LetStatement(x) => match &x.value {
            Some(e) => exp_compilable(e),
            None => false,
        },
        Statement::ReturnStatement(x) => match &x.value {
            Some(e) => exp_compilable(e),
            None => true,
        },
        Statement::BlockStatement(b) => stms_compilable(&b.statements),
    }
}

fn exps_compilable(exps: &Vec<Expression>) -> (res: bool)
    ensures
        res == ok_exps(exps@),
    decreases exps@, 0int,
{
    proof {
        lemma_ok_exps_each(exps@);
    }
    let mut i: usize = 0;
    while i < exps.len()
        invariant
            i <= exps@.len(),
            ok_exps(exps@) == forall|j: int| 0 <= j < exps@.len() ==> #[trigger] ok_exp(exps@[j]),
            forall|j: int| 0 <= j < i ==> #[trigger] ok_exp(exps@[j]),
        decreases exps@.len() - i,
    {
        if !exp_compilable(&exps[i]) {
            return false;
        }
        i = i + 1;
    }
    true
}

fn exp_compilable(exp: &Expression) -> (res: bool)
    ensures
        res == ok_exp(*exp),
    decreases exp, 0int,
{
    match exp {
        Expression::FunctionLiteral(lit) => stms_compilable(&lit.body.statements),
        Expression::ArrayLiteral(a) => exps_compilable(&a.elements),
        Expression::InfixExpression(x) => exp_compilable(&x.right) && exp_compilable(&x.left)
            && infix_instruction(x.operator.kind).is_some(),
        Expression::PrefixExpression(x) => exp_compilable(&x.right) && prefix_instruction(
            x.token.kind,
        ).is_some(),
        Expression::IfExpression(x) => exp_compilable(&x.condition) && stms_compilable(
            &x.consequence.statements,
        ) && match &x.alternative {
            Some(b) => stms_compilable(&b.statements),
            None => true,
        },
        Expression::CallExpression(x) => exp_compilable(&x.function) && exps_compilable(&x.arguments),
        Expression::IndexExpression(x) => exp_compilable(&x.left) && exp_compilable(&x.index),
        _ => true,
    }
}

impl Compiler {
    fn table(&self) -> (res: &SymbolTable)
        requires
            self.wf(),
        ensures
            res@ == self@.table,
    {
        self.symbol_table.as_ref().unwrap()
    }

    fn table_is_global(&self) -> (res: bool)
        requires
            self.wf(),
        ensures
            res == (self@.table.outer is None),
    {
        self.table().is_global()
    }

    /// Define `name` in the current symbol table; a table whose symbol
    /// count cannot grow refuses.
    fn define(&mut self, name: &str) -> (res: Option<usize>)
        requires
            old(self).wf(),
        ensures
            final(self).wf(),
            final(self).alloc_ok() == old(self).alloc_ok(),
            final(self)@.scope_idx == old(self)@.scope_idx,
            match c_define(old(self)@, name@) {
                Some((t, idx)) => final(self)@ == t && res == Some(idx),
                None => final(self)@ == old(self)@ && res is None,
            },
    {
        let mut table = self.symbol_table.take().unwrap();
        if table.len() == usize::MAX {
            self.symbol_table = Some(table);
            return None;
        }
        let idx = table.define(name);
        self.symbol_table = Some(table);
        Some(idx)
    }

    /// Push `obj` to the constant pool and give its index.
    fn push_constant(&mut self, obj: Object) -> (idx: usize)
        requires
            old(self).wf(),
        ensures
            final(self).wf(),
            final(self).alloc_ok() == old(self).alloc_ok(),
            idx == old(self)@.constants.len(),
            final(self)@ == (CompV { constants: old(self)@.constants.push(obj@), ..old(self)@ }),
    {
        let ghost o = obj@;
        self.constants.push(obj);
        assert(objects_view(self.constants@) =~= old(self)@.constants.push(o));
        self.constants.len() - 1
    }

    /// The instruction that stores into the variable `idx` of the current
    /// table.
    fn store_instruction(&self, idx: usize) -> (res: Instruction)
        requires
            self.wf(),
        ensures
            res == super::compiler_spec::store_ins(self@.table, idx),
    {
        if self.table_is_global() {
            Instruction::DEFGLB { idx }
        } else {
            Instruction::DEFLCL { idx }
        }
    }

    /// Define each parameter in the current symbol table; false where a
    /// table cannot grow.
    fn define_parameters(&mut self, params: &Vec<Identifier>) -> (res: bool)
        requires
            old(self).wf(),
        ensures
            final(self).wf(),
            final(self).alloc_ok() == old(self).alloc_ok(),
            final(self)@.scope_idx == old(self)@.scope_idx,
            c_define_all(old(self)@, params@) matches Some(t) ==> res && final(self)@ == t,
    {
        let ghost s0 = self@;
        let ghost c0 = *self;
        let ghost ps = params@;
        let mut i: usize = 0;
        assert(ps.subrange(0, ps.len() as int) =~= ps);
        while i < params.len()
            invariant
                i <= ps.len(),
                ps == params@,
                self.wf(),
                c0 == *old(self),
                s0 == c0@,
                self@.scope_idx == s0.scope_idx,
                self.alloc_ok() == c0.alloc_ok(),
                c_define_all(s0, ps) is Some ==> c_define_all(s0, ps) == c_define_all(
                    self@,
                    ps.subrange(i as int, ps.len() as int),
                ),
            decreases ps.len() - i,
        {
            proof {
                lemma_c_define_all_step(self@, ps, i as int);
            }
            if self.define(params[i].value.as_str()).is_none() {
                return false;
            }
            i = i + 1;
        }
        true
    }

    /// Emit the loads of the given symbols in order, stopping at the first
    /// error.
    fn load_symbols(&mut self, syms: &Vec<Symbol>) -> (res: Result<(), CompileError>)
        requires
            old(self).wf(),
            old(self).alloc_ok(),
        ensures
            final(self).wf(),
            final(self)@.scope_idx == old(self)@.scope_idx,
            final(self).alloc_ok() == !refused(res),
            res matches Err(e) ==> e is InstructionWriteError,
            final(self).alloc_ok() ==> (final(self)@, res_view(res)) == c_load_all(old(self)@, symbols_view(syms@)),
    {
        let ghost s0 = self@;
        let ghost fs = symbols_view(syms@);
        let mut j: usize = 0;
        assert(fs.subrange(0, fs.len() as int) =~= fs);
        while j < syms.len()
            invariant
                j <= fs.len(),
                fs == symbols_view(syms@),
                s0 == old(self)@,
                self.wf(),
                self.alloc_ok(),
                self@.scope_idx == s0.scope_idx,
                c_load_all(s0, fs) == c_load_all(self@, fs.subrange(j as int, fs.len() as int)),
            decreases fs.len() - j,
        {
            proof {
                lemma_c_load_all_step(self@, fs, j as int);
            }
            if let Err(e) = self.load_symbol(&syms[j]) {
                return Err(e);
            }
            j = j + 1;
        }
        proof {
            assert(fs.subrange(j as int, fs.len() as int) =~= Seq::<SymbolV>::empty());
        }
        Ok(())
    }

    /// Make the closure of a compiled function: load its free values, add
    /// it to the constants and emit the closure; a named function that no
    /// `let` binds is stored under its name.
    fn make_closure(
        &mut self,
        lit: &FunctionLiteral,
        body: Instructions,
        free_syms: &Vec<Symbol>,
        local_len: usize,
    ) -> (res: Result<bool, CompileError>)
        requires
            old(self).wf(),
            old(self).alloc_ok(),
        ensures
            progressed(*old(self), *final(self)),
            follows(
                *final(self),
                res,
                c_closure(old(self)@, *lit, body@, symbols_view(free_syms@), local_len),
            ),
            !scope_refused(res),
    {
        if let Err(e) = self.load_symbols(free_syms) {
            return Err(e);
        }
        let compiled_function = CompiledFunction {
            arg_len: lit.parameters.len(),
            local_len,
            instructions: body,
        };
        let idx = self.push_constant(Object::CompiledFunction(compiled_function));
        if let Err(e) = self.emit(Instruction::CLOSURE { idx, free: free_syms.len() }) {
                    return Err(e);
                }
        if !lit.is_let_bind {
            if let Some(id) = &lit.ident {
                let idx = match self.define(id.value.as_str()) {
                    Some(idx) => idx,
                    None => return Err(
                        CompileError::InstructionWriteError(InstructionsError::TooLargeToAllocate),
                    ),
                };
                let ins = self.store_instruction(idx);
                if let Err(e) = self.emit(ins) {
                    return Err(e);
                }
            }
        }
        Ok(true)
    }

    /// compile given src: Program
    ///
    /// A refused memory request ends the compilation with that refusal;
    /// whatever fails before any memory is asked for (a name that resolves
    /// to nothing, compiled first) fails as `c_stms` says, and only a
    /// program with a function literal can be refused a new scope.
    ///
    /// # Errors [`CompileError`]
    ///
    /// This function will return an error if inner function failed.
    ///
    /// if have successfully compiled, returns Ok(True)
    pub fn compile(&mut self, src: Program) -> (res: Result<bool, CompileError>)
        requires
            old(self).wf(),
            ok_stms(src.statements@),
        ensures
            final(self).wf(),
            final(self)@.scope_idx >= old(self)@.scope_idx,
            follows(*final(self), res, c_stms(old(self)@, src.statements@)),
            scope_refused(res) ==> fn_in_stms(src.statements@),
            final(self).alloc_ok() == !refused(res),
            !refused(res) ==> (c_stms(old(self)@, src.statements@) matches Some((t, v)) ==> final(self)@ == t
                && res_view(res) == v),
            src.statements@.len() == 0 ==> res == Ok::<bool, CompileError>(true) && final(self)@ == old(self)@,
            noop_stms(src.statements@) ==> res == Ok::<bool, CompileError>(true) && final(self)@ == old(self)@,
            quiet_stms(old(self)@, src.statements@) ==> !refused(res) && (c_stms(old(self)@, src.statements@) matches Some((t, v)) ==> final(self)@ == t && res_view(res) == v),
    {
        // the flag records the requests of this compilation only
        self.alloc_ok = Ghost(true);
        self.compile_stms(&src.statements)
    }

    /// Compile statements in order, stopping at the first error.
    fn compile_stms(&mut self, stms: &Vec<Statement>) -> (res: Result<bool, CompileError>)
        requires
            old(self).wf(),
            old(self).alloc_ok(),
            ok_stms(stms@),
        ensures
            progressed(*old(self), *final(self)),
            follows(*final(self), res, c_stms(old(self)@, stms@)),
            scope_refused(res) ==> fn_in_stms(stms@),
            stms@.len() == 0 ==> res == Ok::<bool, CompileError>(true),
            quiet_stms(old(self)@, stms@) ==> final(self).alloc_ok() && res is Err,
            noop_stms(stms@) ==> res == Ok::<bool, CompileError>(true) && final(self)@ == old(self)@ && final(self).alloc_ok(),
        decreases stms@, 0int,
    {
        let ghost c0 = *self;
        let ghost s0 = self@;
        let ghost ss = stms@;
        let mut i: usize = 0;
        assert(ss.subrange(0, ss.len() as int) =~= ss);
        while i < stms.len()
            invariant
                i <= ss.len(),
                ss == stms@,
                ok_stms(ss.subrange(i as int, ss.len() as int)),
                progressed(c0, *self),
                c0 == *old(self),
                c0@ == s0,
                self.alloc_ok(),
                quiet_stms(s0, ss) ==> self@ == s0 && quiet_stms(s0, ss.subrange(i as int, ss.len() as int)),
                noop_stms(ss) ==> self@ == s0 && noop_stms(ss.subrange(i as int, ss.len() as int)),
                (c_stms(s0, ss) is Some ==> c_stms(s0, ss) == c_stms(
                    self@,
                    ss.subrange(i as int, ss.len() as int),
                )),
            decreases ss.len() - i,
        {
            proof {
                lemma_c_stms_step(self@, ss, i as int);
            }
            match self.compile_stm(&stms[i]) {
                Err(e) => {
                    proof {
                        if e is ScopeCreateFaild {
                            lemma_fn_in_stms(ss, i as int);
                        }
                    }
                    return Err(e);
                },
                Ok(_) => {},
            }
            i = i + 1;
        }
        Ok(true)
    }

    /// compile statement
    fn compile_stm(&mut self, stm: &Statement) -> (res: Result<bool, CompileError>)
        requires
            old(self).wf(),
            old(self).alloc_ok(),
            ok_stm(*stm),
        ensures
            progressed(*old(self), *final(self)),
            follows(*final(self), res, c_stm(old(self)@, *stm)),
            scope_refused(res) ==> fn_in_stm(*stm),
            quiet_stm(old(self)@, *stm) ==> final(self).alloc_ok() && res is Err,
            noop_stm(*stm) ==> res == Ok::<bool, CompileError>(true) && final(self)@ == old(self)@ && final(self).alloc_ok(),
        decreases stm, 0int,
    {
        match stm {
            Statement::ExpressionStatement(stm) => self.compile_expression_stm(stm),
            Statement::LetStatement(stm) => self.compile_let_stm(stm),
            Statement::ReturnStatement(stm) => self.compile_return_stm(stm),
            Statement::BlockStatement(stm) => self.compile_block_stm(stm),
        }
    }

    /// compile expression statement
    fn compile_expression_stm(&mut self, stm: &ExpressionStatement) -> (res: Result<
        bool,
        CompileError,
    >)
        requires
            old(self).wf(),
            old(self).alloc_ok(),
            ok_stm(Statement::ExpressionStatement(*stm)),
        ensures
            progressed(*old(self), *final(self)),
            follows(*final(self), res, c_stm(old(self)@, Statement::ExpressionStatement(*stm))),
            scope_refused(res) ==> fn_in_stm(Statement::ExpressionStatement(*stm)),
            quiet_stm(old(self)@, Statement::ExpressionStatement(*stm)) ==> final(self).alloc_ok() && res is Err,
            noop_stm(Statement::ExpressionStatement(*stm)) ==> res == Ok::<bool, CompileError>(true) && final(self)@ == old(self)@ && final(self).alloc_ok(),
        decreases stm, 0int,
    {
        match &stm.expression {
            Some(exp) => {
                match self.compile_exp(exp) {
                    Err(e) => return Err(e),
                    Ok(_) => {},
                }
                if let Err(e) = self.emit(Instruction::POP) {
                    return Err(e);
                }
                Ok(true)
            },
            // a statement without its expression is excluded by the precondition
            None => Ok(true),
        }
    }

    /// compile let statement
    fn compile_let_stm(&mut self, stm: &LetStatement) -> (res: Result<bool, CompileError>)
        requires
            old(self).wf(),
            old(self).alloc_ok(),
            ok_stm(Statement::LetStatement(*stm)),
        ensures
            progressed(*old(self), *final(self)),
            follows(*final(self), res, c_stm(old(self)@, Statement::LetStatement(*stm))),
            scope_refused(res) ==> fn_in_stm(Statement::LetStatement(*stm)),
            quiet_stm(old(self)@, Statement::LetStatement(*stm)) ==> final(self).alloc_ok() && res is Err,
            noop_stm(Statement::LetStatement(*stm)) ==> res == Ok::<bool, CompileError>(true) && final(self)@ == old(self)@ && final(self).alloc_ok(),
        decreases stm, 0int,
    {
        let idx = match self.define(stm.identifier.value.as_str()) {
            Some(idx) => idx,
            None => return Err(CompileError::InstructionWriteError(InstructionsError::TooLargeToAllocate)),
        };
        match &stm.value {
            Some(exp) => {
                match self.compile_exp(exp) {
                    Err(e) => return Err(e),
                    Ok(_) => {},
                }
                let ins = self.store_instruction(idx);
                if let Err(e) = self.emit(ins) {
                    return Err(e);
                }
                Ok(true)
            },
            // a statement without its value is excluded by the precondition
            None => Ok(true),
        }
    }

    /// compile return statement
    fn compile_return_stm(&mut self, stm: &ReturnStatement) -> (res: Result<bool, CompileError>)
        requires
            old(self).wf(),
            old(self).alloc_ok(),
            ok_stm(Statement::ReturnStatement(*stm)),
        ensures
            progressed(*old(self), *final(self)),
            follows(*final(self), res, c_stm(old(self)@, Statement::ReturnStatement(*stm))),
            scope_refused(res) ==> fn_in_stm(Statement::ReturnStatement(*stm)),
            quiet_stm(old(self)@, Statement::ReturnStatement(*stm)) ==> final(self).alloc_ok() && res is Err,
            noop_stm(Statement::ReturnStatement(*stm)) ==> res == Ok::<bool, CompileError>(true) && final(self)@ == old(self)@ && final(self).alloc_ok(),
        decreases stm, 0int,
    {
        match &stm.value {
            Some(exp) => {
                match self.compile_exp(exp) {
                    Err(e) => return Err(e),
                    Ok(_) => {},
                }
                if let Err(e) = self.emit(Instruction::RETV) {
                    return Err(e);
                }
            },
            None => {
                if let Err(e) = self.emit(Instruction::RETN) {
                    return Err(e);
                }
            },
        }
        Ok(true)
    }

    /// compile block statement
    fn compile_block_stm(&mut self, stm: &BlockStatement) -> (res: Result<bool, CompileError>)
        requires
            old(self).wf(),
            old(self).alloc_ok(),
            ok_stms(stm.statements@),
        ensures
            progressed(*old(self), *final(self)),
            follows(*final(self), res, c_stms(old(self)@, stm.statements@)),
            scope_refused(res) ==> fn_in_stms(stm.statements@),
            quiet_stms(old(self)@, stm.statements@) ==> final(self).alloc_ok() && res is Err,
            noop_stms(stm.statements@) ==> res == Ok::<bool, CompileError>(true) && final(self)@ == old(self)@ && final(self).alloc_ok(),
        decreases stm, 0int,
    {
        self.compile_stms(&stm.statements)
    }

    /// compile expression
    fn compile_exp(&mut self, exp: &Expression) -> (res: Result<bool, CompileError>)
        requires
            old(self).wf(),
            old(self).alloc_ok(),
            ok_exp(*exp),
        ensures
            progressed(*old(self), *final(self)),
            follows(*final(self), res, c_exp(old(self)@, *exp)),
            scope_refused(res) ==> fn_in_exp(*exp),
            quiet_exp(old(self)@, *exp) ==> final(self).alloc_ok() && res is Err,
        decreases exp, 0int,
    {
        match exp {
            Expression::Identifier(exp) => self.compile_identifier_exp(exp),
            Expression::IntegerLiteral(lit) => self.compile_integer_literal(lit),
            Expression::BooleanLiteral(lit) => self.compile_bool_literal(lit),
            Expression::StringLiteral(lit) => self.compile_string_literal(lit),
            Expression::FunctionLiteral(lit) => self.compile_function_literal(lit),
            Expression::ArrayLiteral(lit) => self.compile_array_literal(lit),
            Expression::InfixExpression(exp) => self.compile_infix_exp(exp),
            Expression::PrefixExpression(exp) => self.compile_prefix_exp(exp),
            Expression::IfExpression(exp) => self.compile_if_exp(exp),
            Expression::CallExpression(exp) => self.compile_call_exp(exp),
            Expression::IndexExpression(exp) => self.compile_index_exp(exp),
        }
    }

    /// Compile given identifier expression.
    /// try to find a symbol with given identifier,
    /// and if have found, emit load symbol instruction.
    ///
    /// # Errors [CompileError::IdentifierNotFound]
    /// This function will return an error if identifier not found on [`self.symbol_table`]
    fn compile_identifier_exp(&mut self, exp: &Identifier) -> (res: Result<bool, CompileError>)
        requires
            old(self).wf(),
            old(self).alloc_ok(),
        ensures
            progressed(*old(self), *final(self)),
            follows(*final(self), res, c_exp(old(self)@, Expression::Identifier(*exp))),
            scope_refused(res) ==> fn_in_exp(Expression::Identifier(*exp)),
            quiet_exp(old(self)@, Expression::Identifier(*exp)) ==> final(self).alloc_ok() && res is Err,
    {
        let mut table = self.symbol_table.take().unwrap();
        let ghost t0 = table@;
        let rst = table.resolve(&exp.value);
        proof {
            lemma_resolve_depth(t0, exp.value@);
        }
        self.symbol_table = Some(table);
        match rst {
            Some(sym) => match self.load_symbol(&sym) {
                Ok(_) => Ok(true),
                Err(e) => Err(e),
            },
            None => Err(CompileError::IdentifierNotFound(exp.copy())),
        }
    }

    /// Compile given IntegerLiteral
    fn compile_integer_literal(&mut self, lit: &IntegerLiteral) -> (res: Result<bool, CompileError>)
        requires
            old(self).wf(),
            old(self).alloc_ok(),
        ensures
            progressed(*old(self), *final(self)),
            follows(*final(self), res, c_exp(old(self)@, Expression::IntegerLiteral(*lit))),
            scope_refused(res) ==> fn_in_exp(Expression::IntegerLiteral(*lit)),
    {
        let idx = self.push_constant(Object::Int(Int { value: lit.value }));
        match self.emit(Instruction::CONST { idx }) {
            Err(e) => Err(e),
            Ok(_) => Ok(true),
        }
    }

    /// Compile given bool literal
    fn compile_bool_literal(&mut self, lit: &BooleanLiteral) -> (res: Result<bool, CompileError>)
        requires
            old(self).wf(),
            old(self).alloc_ok(),
        ensures
            progressed(*old(self), *final(self)),
            follows(*final(self), res, c_exp(old(self)@, Expression::BooleanLiteral(*lit))),
            scope_refused(res) ==> fn_in_exp(Expression::BooleanLiteral(*lit)),
    {
        let idx = self.push_constant(Object::Bool(Bool { value: lit.value }));
        match self.emit(Instruction::CONST { idx }) {
            Err(e) => Err(e),
            Ok(_) => Ok(true),
        }
    }

    /// Compile given string literal
    fn compile_string_literal(&mut self, lit: &StringLiteral) -> (res: Result<bool, CompileError>)
        requires
            old(self).wf(),
            old(self).alloc_ok(),
        ensures
            progressed(*old(self), *final(self)),
            follows(*final(self), res, c_exp(old(self)@, Expression::StringLiteral(*lit))),
            scope_refused(res) ==> fn_in_exp(Expression::StringLiteral(*lit)),
    {
        let idx = self.push_constant(Object::String(StringObject { value: lit.value.clone() }));
        match self.emit(Instruction::CONST { idx }) {
            Err(e) => Err(e),
            Ok(_) => Ok(true),
        }
    }

    /// Compile an array literal: its elements, stopping at the first error,
    /// then the instruction that gathers them.
    fn compile_array_literal(&mut self, lit: &ArrayLiteral) -> (res: Result<bool, CompileError>)
        requires
            old(self).wf(),
            old(self).alloc_ok(),
            ok_exps(lit.elements@),
        ensures
            progressed(*old(self), *final(self)),
            follows(*final(self), res, c_exp(old(self)@, Expression::ArrayLiteral(*lit))),
            scope_refused(res) ==> fn_in_exp(Expression::ArrayLiteral(*lit)),
            quiet_exp(old(self)@, Expression::ArrayLiteral(*lit)) ==> final(self).alloc_ok() && res is Err,
        decreases lit, 0int,
    {
        match self.compile_exps(&lit.elements) {
            Err(e) => return Err(e),
            Ok(_) => {},
        }
        if let Err(e) = self.emit(Instruction::ARRAY { count: lit.elements.len() }) {
                    return Err(e);
                }
        Ok(true)
    }

    /// Compile expressions in order, stopping at the first error.
    fn compile_exps(&mut self, exps: &Vec<Expression>) -> (res: Result<bool, CompileError>)
        requires
            old(self).wf(),
            old(self).alloc_ok(),
            ok_exps(exps@),
        ensures
            progressed(*old(self), *final(self)),
            follows(*final(self), res, c_exps(old(self)@, exps@)),
            scope_refused(res) ==> fn_in_exps(exps@),
            quiet_exps(old(self)@, exps@) ==> final(self).alloc_ok() && res is Err,
        decreases exps@, 0int,
    {
        let ghost c0 = *self;
        let ghost s0 = self@;
        let ghost es = exps@;
        let mut i: usize = 0;
        assert(es.subrange(0, es.len() as int) =~= es);
        while i < exps.len()
            invariant
                i <= es.len(),
                es == exps@,
                ok_exps(es.subrange(i as int, es.len() as int)),
                progressed(c0, *self),
                c0 == *old(self),
                c0@ == s0,
                self.alloc_ok(),
                quiet_exps(s0, es) ==> i == 0 && self@ == s0,
                (c_exps(s0, es) is Some ==> c_exps(s0, es) == c_exps(
                    self@,
                    es.subrange(i as int, es.len() as int),
                )),
            decreases es.len() - i,
        {
            proof {
                lemma_c_exps_step(self@, es, i as int);
            }
            match self.compile_exp(&exps[i]) {
                Err(e) => {
                    proof {
                        if e is ScopeCreateFaild {
                            lemma_fn_in_exps(es, i as int);
                        }
                    }
                    return Err(e);
                },
                Ok(_) => {},
            }
            i = i + 1;
        }
        assert(es.subrange(i as int, es.len() as int) =~= Seq::<Expression>::empty());
        Ok(true)
    }

    /// Compile a prefix expression: its operand, then its operator.
    fn compile_prefix_exp(&mut self, exp: &PrefixExpression) -> (res: Result<bool, CompileError>)
        requires
            old(self).wf(),
            old(self).alloc_ok(),
            ok_exp(Expression::PrefixExpression(*exp)),
        ensures
            progressed(*old(self), *final(self)),
            follows(*final(self), res, c_exp(old(self)@, Expression::PrefixExpression(*exp))),
            scope_refused(res) ==> fn_in_exp(Expression::PrefixExpression(*exp)),
            quiet_exp(old(self)@, Expression::PrefixExpression(*exp)) ==> final(self).alloc_ok() && res is Err,
        decreases exp, 0int,
    {
        match self.compile_exp(&exp.right) {
            Err(e) => return Err(e),
            Ok(_) => {},
        }
        match prefix_instruction(exp.token.kind) {
            Some(ins) => {
                if let Err(e) = self.emit(ins) {
                    return Err(e);
                }
            },
            // an unknown operator is excluded by the precondition
            None => {},
        }
        Ok(true)
    }

    /// Compile an infix expression: right operand, left operand, operator.
    fn compile_infix_exp(&mut self, exp: &InfixExpression) -> (res: Result<bool, CompileError>)
        requires
            old(self).wf(),
            old(self).alloc_ok(),
            ok_exp(Expression::InfixExpression(*exp)),
        ensures
            progressed(*old(self), *final(self)),
            follows(*final(self), res, c_exp(old(self)@, Expression::InfixExpression(*exp))),
            scope_refused(res) ==> fn_in_exp(Expression::InfixExpression(*exp)),
            quiet_exp(old(self)@, Expression::InfixExpression(*exp)) ==> final(self).alloc_ok() && res is Err,
        decreases exp, 0int,
    {
        match self.compile_exp(&exp.right) {
            Err(e) => return Err(e),
            Ok(_) => {},
        }
        match self.compile_exp(&exp.left) {
            Err(e) => return Err(e),
            Ok(_) => {},
        }
        match infix_instruction(exp.operator.kind) {
            Some(ins) => {
                if let Err(e) = self.emit(ins) {
                    return Err(e);
                }
            },
            // an unknown operator is excluded by the precondition
            None => {},
        }
        Ok(true)
    }

    /// Compile a call: the function, its arguments, then the call.
    fn compile_call_exp(&mut self, exp: &CallExpression) -> (res: Result<bool, CompileError>)
        requires
            old(self).wf(),
            old(self).alloc_ok(),
            ok_exp(Expression::CallExpression(*exp)),
        ensures
            progressed(*old(self), *final(self)),
            follows(*final(self), res, c_exp(old(self)@, Expression::CallExpression(*exp))),
            scope_refused(res) ==> fn_in_exp(Expression::CallExpression(*exp)),
            quiet_exp(old(self)@, Expression::CallExpression(*exp)) ==> final(self).alloc_ok() && res is Err,
        decreases exp, 0int,
    {
        match self.compile_exp(&exp.function) {
            Err(e) => return Err(e),
            Ok(_) => {},
        }
        match self.compile_exps(&exp.arguments) {
            Err(e) => return Err(e),
            Ok(_) => {},
        }
        if let Err(e) = self.emit(Instruction::CALL { arg_len: exp.arguments.len() }) {
                    return Err(e);
                }
        Ok(true)
    }

    /// Compile an index expression: the indexed value, the index, then the
    /// lookup.
    fn compile_index_exp(&mut self, exp: &IndexExpression) -> (res: Result<bool, CompileError>)
        requires
            old(self).wf(),
            old(self).alloc_ok(),
            ok_exp(Expression::IndexExpression(*exp)),
        ensures
            progressed(*old(self), *final(self)),
            follows(*final(self), res, c_exp(old(self)@, Expression::IndexExpression(*exp))),
            scope_refused(res) ==> fn_in_exp(Expression::IndexExpression(*exp)),
            quiet_exp(old(self)@, Expression::IndexExpression(*exp)) ==> final(self).alloc_ok() && res is Err,
        decreases exp, 0int,
    {
        match self.compile_exp(&exp.left) {
            Err(e) => return Err(e),
            Ok(_) => {},
        }
        match self.compile_exp(&exp.index) {
            Err(e) => return Err(e),
            Ok(_) => {},
        }
        if let Err(e) = self.emit(Instruction::INDEX) {
                    return Err(e);
                }
        Ok(true)
    }

    /// Compile an `if`: the condition, a conditional jump and the
    /// consequence, then the rest in [`Compiler::compile_if_tail`].
    fn compile_if_exp(&mut self, exp: &IfExpression) -> (res: Result<bool, CompileError>)
        requires
            old(self).wf(),
            old(self).alloc_ok(),
            ok_exp(Expression::IfExpression(*exp)),
        ensures
            progressed(*old(self), *final(self)),
            follows(*final(self), res, c_if(old(self)@, *exp)),
            scope_refused(res) ==> fn_in_exp(Expression::IfExpression(*exp)),
            quiet_exp(old(self)@, Expression::IfExpression(*exp)) ==> final(self).alloc_ok() && res is Err,
        decreases exp, 0int,
    {
        match self.compile_exp(&exp.condition) {
            Err(e) => return Err(e),
            Ok(_) => {},
        }
        let jump_consequence = match self.emit(Instruction::JNS { idx: 0 }) {
            Err(e) => return Err(e),
            Ok(pos) => pos,
        };
        match self.compile_block_stm(&exp.consequence) {
            Err(e) => return Err(e),
            Ok(_) => {},
        }
        self.remove_last_instruction_if(Instruction::POP);
        self.compile_if_tail(&exp.alternative, jump_consequence)
    }

    /// After the consequence of an `if`: for an alternative, a jump over it,
    /// the conditional jump patched to land on it, the alternative and the
    /// jump over it patched; else the conditional jump patched to land here.
    fn compile_if_tail(&mut self, alternative: &Option<BlockStatement>, jump_consequence: usize) -> (res:
        Result<bool, CompileError>)
        requires
            old(self).wf(),
            old(self).alloc_ok(),
            match *alternative {
                Some(b) => ok_stms(b.statements@),
                None => true,
            },
        ensures
            progressed(*old(self), *final(self)),
            follows(*final(self), res, c_if_tail(old(self)@, *alternative, jump_consequence)),
            scope_refused(res) ==> (*alternative matches Some(b) && fn_in_stms(b.statements@)),
        decreases alternative, 0int,
    {
        match alternative {
            Some(alternative) => {
                let jump_alternative = match self.emit(Instruction::JMP { idx: 0 }) {
                    Err(e) => return Err(e),
                    Ok(pos) => pos,
                };
                let target = self.next_offset();
                self.update(Instruction::JNS { idx: target }, jump_consequence);
                match self.compile_block_stm(alternative) {
                    Err(e) => return Err(e),
                    Ok(_) => {},
                }
                self.remove_last_instruction_if(Instruction::POP);
                let target = self.next_offset();
                self.update(Instruction::JMP { idx: target }, jump_alternative);
            },
            None => {
                let target = self.next_offset();
                self.update(Instruction::JNS { idx: target }, jump_consequence);
            },
        }
        Ok(true)
    }

    /// Compile a function body in a new scope: its name and parameters are
    /// defined there, and it returns its last expression's value, or nothing.
    fn compile_function_body(&mut self, lit: &FunctionLiteral) -> (res: Result<bool, CompileError>)
        requires
            old(self).wf(),
            old(self).alloc_ok(),
            ok_stms(lit.body.statements@),
        ensures
            progressed(*old(self), *final(self)),
            res is Ok ==> final(self)@.scope_idx > old(self)@.scope_idx,
            follows(*final(self), res, c_func_body(old(self)@, *lit)),
            scope_refused(res) && final(self)@.scope_idx == old(self)@.scope_idx ==> final(self)@ == old(self)@,
        decreases lit, 0int,
    {
        match self.enter_scope() {
            Err(e) => return Err(e),
            Ok(_) => {},
        }
        let ghost c1 = *self;
        let mut table = self.symbol_table.take().unwrap();
        match &lit.ident {
            Some(id) => {
                let _ = table.define_function_name(id.value.as_str());
            },
            None => {},
        }
        self.symbol_table = Some(table);
        if !self.define_parameters(&lit.parameters) {
            return Err(CompileError::InstructionWriteError(InstructionsError::TooLargeToAllocate));
        }
        match self.compile_block_stm(&lit.body) {
            Err(e) => return Err(e),
            Ok(_) => {},
        }
        if !self.update_last_instruction_if(Instruction::POP, Instruction::RETV) {
            if let Err(e) = self.emit(Instruction::RETN) {
                    return Err(e);
                }
        }
        Ok(true)
    }

    /// Compile given function literal
    ///
    /// # Errors
    ///
    /// This function will return an error if failed to compile
    fn compile_function_literal(&mut self, lit: &FunctionLiteral) -> (res: Result<bool, CompileError>)
        requires
            old(self).wf(),
            old(self).alloc_ok(),
            ok_exp(Expression::FunctionLiteral(*lit)),
        ensures
            progressed(*old(self), *final(self)),
            follows(*final(self), res, c_func(old(self)@, *lit)),
            scope_refused(res) && final(self)@.scope_idx == old(self)@.scope_idx ==> final(self)@ == old(self)@,
        decreases lit, 1int,
    {
        match self.compile_function_body(lit) {
            Err(e) => return Err(e),
            Ok(_) => {},
        }
        let free_syms = self.table().get_free();
        let local_len = self.table().len();
        let body_scope = self.leave_scope();
        self.make_closure(lit, body_scope.instructions, &free_syms, local_len)
    }
}

} // verus!
