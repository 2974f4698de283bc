use vstd::prelude::*;

use super::bytecode::instruction::Instruction;
use super::bytecode::instructions::decode_at;
use super::bytecode::opcode::op_length;
use super::vm::errors::VmErrorV;
use super::vm::frame::FrameV;
use crate::object::{type_of, ClosureV, ObjectType, ObjectV};

verus! {

/// Slots on the value stack.
pub const STACK_SIZE: usize = 2048;

/// The machine as a value.
pub struct VmV {
    pub stack: Seq<Option<ObjectV>>,
    pub sp: usize,
    pub constants: Seq<ObjectV>,
    pub global: Seq<ObjectV>,
    pub frames: Seq<FrameV>,
    pub fp: usize,
}

/// Outcome of one step: the next state, or an error and the state the
/// machine was left in.
pub enum Step {
    Next(VmV),
    Fail(VmErrorV, VmV),
}

/// Shape every reachable machine has: a full-size stack and one frame per
/// frame pointer position.
pub open spec fn vm_inv(s: VmV) -> bool {
    &&& s.stack.len() == STACK_SIZE
    &&& s.frames.len() == s.fp + 1
}

pub open spec fn cur(s: VmV) -> FrameV {
    s.frames[s.fp as int]
}

pub open spec fn with_cur(s: VmV, f: FrameV) -> VmV {
    VmV { frames: s.frames.update(s.fp as int, f), ..s }
}

pub open spec fn with_ic(s: VmV, ic: usize) -> VmV {
    with_cur(s, FrameV { ic, ..cur(s) })
}

/// Move the current frame past an instruction of `len` bytes.
pub open spec fn advance(s: VmV, len: nat) -> Option<VmV> {
    if cur(s).ic + len <= usize::MAX {
        Some(with_ic(s, (cur(s).ic + len) as usize))
    } else {
        None
    }
}

/// Finish an instruction that does not jump: advance past it.
pub open spec fn finish(s: VmV, ins: Instruction) -> Option<Step> {
    match advance(s, op_length(ins.spec_opcode())) {
        Some(t) => Some(Step::Next(t)),
        None => None,
    }
}

/// Take the top of the stack. On an empty stack nothing is taken and the
/// slot above the bottom is cleared.
pub open spec fn pop(s: VmV) -> (Option<ObjectV>, VmV) {
    if s.sp > 0 {
        (s.stack[s.sp as int], VmV { sp: (s.sp - 1) as usize, ..s })
    } else {
        (None, VmV { stack: s.stack.update(s.sp + 1, None), ..s })
    }
}

/// Take the top of the stack, which must hold a value.
pub open spec fn pop_some(s: VmV) -> Option<(ObjectV, VmV)> {
    if s.sp >= s.stack.len() {
        None
    } else {
        match pop(s).0 {
            Some(o) => Some((o, pop(s).1)),
            None => None,
        }
    }
}

/// Put a value on top of the stack; the slot above the top must exist.
pub open spec fn push(s: VmV, o: ObjectV) -> Option<VmV> {
    if s.sp + 1 < s.stack.len() {
        Some(VmV { stack: s.stack.update(s.sp + 1, Some(o)), sp: (s.sp + 1) as usize, ..s })
    } else {
        None
    }
}

pub open spec fn push_finish(s: VmV, o: ObjectV, ins: Instruction) -> Option<Step> {
    match push(s, o) {
        Some(t) => finish(t, ins),
        None => None,
    }
}

/// Rust's `/` on integers: the quotient rounded toward zero (for a
/// non-negative dividend the floored quotient of the magnitudes, negated for
/// a negative one).
pub open spec fn trunc_div(a: int, b: int) -> int {
    if a >= 0 {
        a / b
    } else {
        -((-a) / b)
    }
}

/// Rust's `%` on integers: the remainder, with the sign of the dividend.
pub open spec fn trunc_rem(a: int, b: int) -> int {
    if a >= 0 {
        a % b
    } else {
        -((-a) % b)
    }
}

pub open spec fn in_i64(v: int) -> bool {
    i64::MIN <= v <= i64::MAX
}

/// Integer arithmetic: `None` where Rust panics (overflow, division by zero).
pub open spec fn int_arith(ins: Instruction, a: i64, b: i64) -> Option<i64> {
    match ins {
        Instruction::ADD => if in_i64(a + b) { Some((a + b) as i64) } else { None },
        Instruction::SUB => if in_i64(a - b) { Some((a - b) as i64) } else { None },
        Instruction::PRODUCT => if in_i64(a * b) { Some((a * b) as i64) } else { None },
        Instruction::DIVIDE => if b != 0 && !(a == i64::MIN && b == -1) { Some(trunc_div(a as int, b as int) as i64) } else { None },
        Instruction::MOD => if b != 0 && !(a == i64::MIN && b == -1) { Some(trunc_rem(a as int, b as int) as i64) } else { None },
        Instruction::BAND => Some(a & b),
        Instruction::BOR => Some(a | b),
        _ => None,
    }
}

pub open spec fn is_int_arith(ins: Instruction) -> bool {
    ins is ADD || ins is SUB || ins is PRODUCT || ins is DIVIDE || ins is MOD || ins is BAND || ins is BOR
}

pub open spec fn is_compare(ins: Instruction) -> bool {
    ins is CGT || ins is CGTE || ins is CLT || ins is CLTE || ins is CEQ || ins is CNEQ
}

pub open spec fn is_binary(ins: Instruction) -> bool {
    is_int_arith(ins) || is_compare(ins) || ins is AND || ins is OR
}

pub open spec fn int_compare(ins: Instruction, a: i64, b: i64) -> bool {
    match ins {
        Instruction::CGT => a > b,
        Instruction::CGTE => a >= b,
        Instruction::CLT => a < b,
        Instruction::CLTE => a <= b,
        Instruction::CEQ => a == b,
        _ => a != b,
    }
}

/// A binary instruction on the two values taken from the stack: `left`
/// was on top.
pub open spec fn binary(t: VmV, ins: Instruction, left: ObjectV, right: ObjectV) -> Option<Step> {
    if type_of(left) != type_of(right) {
        Some(Step::Fail(VmErrorV::TypeNotSame { left, right }, t))
    } else {
        match (left, right) {
            (ObjectV::Int(a), ObjectV::Int(b)) => {
                if is_int_arith(ins) {
                    match int_arith(ins, a, b) {
                        Some(v) => push_finish(t, ObjectV::Int(v), ins),
                        None => None,
                    }
                } else if is_compare(ins) {
                    push_finish(t, ObjectV::Bool(int_compare(ins, a, b)), ins)
                } else {
                    Some(Step::Fail(VmErrorV::InvalidIntegerInstruction(ins), t))
                }
            },
            (ObjectV::Bool(a), ObjectV::Bool(b)) => match ins {
                Instruction::AND => push_finish(t, ObjectV::Bool(a && b), ins),
                Instruction::OR => push_finish(t, ObjectV::Bool(a || b), ins),
                Instruction::CEQ => push_finish(t, ObjectV::Bool(a == b), ins),
                Instruction::CNEQ => push_finish(t, ObjectV::Bool(a != b), ins),
                _ => Some(Step::Fail(VmErrorV::InvalidBoolInstruction(ins), t)),
            },
            (ObjectV::String(a), ObjectV::String(b)) => match ins {
                Instruction::ADD => push_finish(t, ObjectV::String(a + b), ins),
                Instruction::CEQ => push_finish(t, ObjectV::Bool(a == b), ins),
                Instruction::CNEQ => push_finish(t, ObjectV::Bool(a != b), ins),
                _ => Some(Step::Fail(VmErrorV::InvalidStringInstruction(ins), t)),
            },
            _ => finish(t, ins),
        }
    }
}

/// The values in stack slots `lo..hi`, all of which must be filled.
pub open spec fn stack_range(s: VmV, lo: int, hi: int) -> Option<Seq<ObjectV>> {
    if 0 <= lo <= hi <= s.stack.len() && (forall|i: int| lo <= i < hi ==> #[trigger] s.stack[i] is Some) {
        Some(Seq::new((hi - lo) as nat, |i: int| s.stack[lo + i]->0))
    } else {
        None
    }
}

/// Leave the current frame; the stack pointer drops below the callee.
pub open spec fn leave_frame(s: VmV) -> Option<VmV> {
    if s.fp == 0 || cur(s).bp == 0 {
        None
    } else {
        Some(VmV {
            frames: s.frames.drop_last(),
            fp: (s.fp - 1) as usize,
            sp: (cur(s).bp - 1) as usize,
            ..s
        })
    }
}

/// Enter the closure below the `arg_len` arguments on top of the stack.
pub open spec fn call(s: VmV, arg_len: usize) -> Option<VmV> {
    if arg_len > s.sp || s.sp - arg_len >= s.stack.len() {
        None
    } else {
        let new_bp = (s.sp - arg_len) as usize;
        match s.stack[new_bp as int] {
            Some(ObjectV::Closure(cl)) => if new_bp + cl.fun.local_len <= usize::MAX {
                Some(VmV {
                    frames: s.frames.push(FrameV { cf: cl, bp: new_bp, ic: 0 }),
                    fp: (s.fp + 1) as usize,
                    sp: (new_bp + cl.fun.local_len) as usize,
                    ..s
                })
            } else {
                None
            },
            _ => None,
        }
    }
}

/// Execute a decoded instruction; `None` where the machine panics.
pub open spec fn exec_ins(s: VmV, ins: Instruction) -> Option<Step> {
    match ins {
        Instruction::PUSH | Instruction::JEQ { .. } | Instruction::JNEQ { .. } => None,
        Instruction::POP => if s.sp < s.stack.len() {
            finish(pop(s).1, ins)
        } else {
            None
        },
        Instruction::CONST { idx } => if idx < s.constants.len() {
            push_finish(s, s.constants[idx as int], ins)
        } else {
            None
        },
        Instruction::DEFGLB { idx } => match pop_some(s) {
            Some((o, t)) => if idx < t.global.len() {
                finish(VmV { global: t.global.update(idx as int, o), ..t }, ins)
            } else {
                finish(VmV { global: t.global.push(o), ..t }, ins)
            },
            None => None,
        },
        Instruction::GETGLB { idx } => if idx < s.global.len() {
            push_finish(s, s.global[idx as int], ins)
        } else {
            None
        },
        Instruction::DEFLCL { idx } => match pop_some(s) {
            Some((o, t)) => {
                let off = cur(t).bp + 1 + idx;
                if off < t.stack.len() {
                    finish(VmV { stack: t.stack.update(off, Some(o)), ..t }, ins)
                } else {
                    None
                }
            },
            None => None,
        },
        Instruction::GETLCL { idx } => {
            let off = cur(s).bp + 1 + idx;
            if off < s.stack.len() && s.stack[off] is Some {
                push_finish(s, s.stack[off]->0, ins)
            } else {
                None
            }
        },
        Instruction::GETFREE { idx } => if idx < cur(s).cf.free.len() {
            push_finish(s, cur(s).cf.free[idx as int], ins)
        } else {
            None
        },
        Instruction::GETCUR => push_finish(s, ObjectV::Closure(cur(s).cf), ins),
        Instruction::BANG => match pop_some(s) {
            Some((ObjectV::Bool(b), t)) => push_finish(t, ObjectV::Bool(!b), ins),
            Some((o, t)) => Some(Step::Fail(VmErrorV::NotABolean { obj: o }, t)),
            None => None,
        },
        Instruction::NEG => match pop_some(s) {
            Some((ObjectV::Int(v), t)) => if v != i64::MIN {
                push_finish(t, ObjectV::Int((-v) as i64), ins)
            } else {
                None
            },
            Some((o, t)) => Some(Step::Fail(VmErrorV::NotAInt { obj: o }, t)),
            None => None,
        },
        Instruction::JMP { idx } => Some(Step::Next(with_ic(s, idx))),
        Instruction::JIS { idx } => match pop_some(s) {
            Some((ObjectV::Bool(b), t)) => if b {
                Some(Step::Next(with_ic(t, idx)))
            } else {
                finish(t, ins)
            },
            Some((o, t)) => Some(Step::Fail(VmErrorV::JumpConditionNotABolean { obj: o }, t)),
            None => None,
        },
        Instruction::JNS { idx } => match pop_some(s) {
            Some((ObjectV::Bool(b), t)) => if !b {
                Some(Step::Next(with_ic(t, idx)))
            } else {
                finish(t, ins)
            },
            Some((o, t)) => Some(Step::Fail(VmErrorV::JumpConditionNotABolean { obj: o }, t)),
            None => None,
        },
        Instruction::ARRAY { count } => if count <= s.sp {
            match stack_range(s, s.sp + 1 - count, s.sp + 1) {
                Some(els) => push_finish(VmV { sp: (s.sp - count) as usize, ..s }, ObjectV::Array(els), ins),
                None => None,
            }
        } else {
            None
        },
        Instruction::INDEX => match pop_some(s) {
            Some((ObjectV::Int(v), t1)) => match pop_some(t1) {
                Some((ObjectV::Array(els), t2)) => if (v as usize) < els.len() {
                    push_finish(t2, els[(v as usize) as int], ins)
                } else {
                    None
                },
                Some((o, t2)) => Some(Step::Fail(VmErrorV::IndexTargetNotAArray { obj: o }, t2)),
                None => None,
            },
            Some((o, t1)) => Some(Step::Fail(VmErrorV::IndexNotAInt { obj: o }, t1)),
            None => None,
        },
        // the callee starts at its first instruction; the caller resumes
        // after the call
        Instruction::CALL { arg_len } => match advance(s, op_length(ins.spec_opcode())) {
            Some(t) => match call(t, arg_len) {
                Some(u) => Some(Step::Next(u)),
                None => None,
            },
            None => None,
        },
        Instruction::RETN => match leave_frame(s) {
            Some(t) => Some(Step::Next(t)),
            None => None,
        },
        Instruction::RETV => match pop_some(s) {
            Some((v, t)) => match leave_frame(t) {
                Some(u) => match push(u, v) {
                    Some(w) => Some(Step::Next(w)),
                    None => None,
                },
                None => None,
            },
            None => None,
        },
        Instruction::CLOSURE { idx, free } => if idx < s.constants.len() && s.sp + 1 <= usize::MAX
            && free <= s.sp + 1 {
            match (s.constants[idx as int], stack_range(s, s.sp + 1 - free, s.sp + 1)) {
                (ObjectV::CompiledFunction(f), Some(vals)) => push_finish(
                    s,
                    ObjectV::Closure(ClosureV { fun: f, free: vals }),
                    ins,
                ),
                _ => None,
            }
        } else {
            None
        },
        _ => match pop_some(s) {
            Some((left, t1)) => match pop_some(t1) {
                Some((right, t2)) => binary(t2, ins, left, right),
                None => None,
            },
            None => None,
        },
    }
}

/// One step of the machine: decode the instruction at the current frame's
/// counter and execute it. `None` where the machine would panic.
pub open spec fn step(s: VmV) -> Option<Step> {
    match decode_at(cur(s).cf.fun.instructions, cur(s).ic as int) {
        None => Some(Step::Fail(VmErrorV::InstructionReadFailure(cur(s).ic), s)),
        Some(ins) => exec_ins(s, ins),
    }
}

/// A step that runs `CONST` pushes the constant: after it, the top of the
/// stack, one slot above where it was, holds that constant, and the
/// constants and globals are as they were.
pub proof fn law_const_step_pushes(s: VmV, idx: usize)
    requires
        decode_at(cur(s).cf.fun.instructions, cur(s).ic as int) == Some(Instruction::CONST { idx }),
        step(s) is Some,
        s.stack.len() <= usize::MAX,
    ensures
        step(s) matches Some(Step::Next(t)) && t.sp == s.sp + 1 && t.stack[t.sp as int] == Some(
            s.constants[idx as int],
        ) && t.constants == s.constants && t.global == s.global,
{
    let ins = Instruction::CONST { idx };
    assert(step(s) == exec_ins(s, ins));
    let p = push(s, s.constants[idx as int])->0;
    assert(exec_ins(s, ins) == finish(p, ins));
    let t = advance(p, op_length(ins.spec_opcode()))->0;
    assert(t == with_ic(p, (cur(p).ic + op_length(ins.spec_opcode())) as usize));
}

/// A comparison step on two integers pushes the truth of the comparison,
/// in the order of the integers: with `a` on top of the stack and `b` below
/// it, `CGT` pushes whether `a > b`, `CGTE` whether `a >= b`, `CLT` whether
/// `a < b`, `CLTE` whether `a <= b`, `CEQ` whether they are equal and
/// `CNEQ` whether they differ; the two are taken off and the result takes
/// their place. In particular `CGT` and `CLT` are false on equal integers,
/// `CGTE` and `CLTE` true, and `CGT` is the negation of `CLTE`.
pub proof fn law_compare_step(s: VmV, ins: Instruction, a: i64, b: i64)
    requires
        is_compare(ins),
        2 <= s.sp < s.stack.len() <= usize::MAX,
        s.stack[s.sp as int] == Some(ObjectV::Int(a)),
        s.stack[s.sp - 1] == Some(ObjectV::Int(b)),
        exec_ins(s, ins) is Some,
    ensures
        exec_ins(s, ins) matches Some(Step::Next(u)) && u.sp == s.sp - 1,
        ({
            let top = exec_ins(s, ins)->0->Next_0.stack[s.sp - 1];
            &&& ins is CGT ==> top == Some(ObjectV::Bool(a > b))
            &&& ins is CGTE ==> top == Some(ObjectV::Bool(a >= b))
            &&& ins is CLT ==> top == Some(ObjectV::Bool(a < b))
            &&& ins is CLTE ==> top == Some(ObjectV::Bool(a <= b))
            &&& ins is CEQ ==> top == Some(ObjectV::Bool(a == b))
            &&& ins is CNEQ ==> top == Some(ObjectV::Bool(a != b))
        }),
{
    let (l, t1) = pop_some(s)->0;
    let (rr, t2) = pop_some(t1)->0;
    assert(l == ObjectV::Int(a) && rr == ObjectV::Int(b));
    assert(exec_ins(s, ins) == binary(t2, ins, l, rr));
    let p = push(t2, ObjectV::Bool(int_compare(ins, a, b)))->0;
    let u = advance(p, op_length(ins.spec_opcode()))->0;
    assert(u == with_ic(p, (cur(p).ic + op_length(ins.spec_opcode())) as usize));
}

/// Division and remainder round toward zero: the quotient times the
/// divisor plus the remainder gives back the dividend, and the remainder is
/// smaller than the divisor in size and has the sign of the dividend. These
/// fix both, so `DIVIDE` and `MOD` compute Rust's `/` and `%`.
pub proof fn law_trunc_div_rem(a: int, b: int)
    requires
        b != 0,
    ensures
        b * trunc_div(a, b) + trunc_rem(a, b) == a,
        a >= 0 ==> 0 <= trunc_rem(a, b) < (if b > 0 { b } else { -b }),
        a < 0 ==> -(if b > 0 { b } else { -b }) < trunc_rem(a, b) <= 0,
{
    let n = if a >= 0 { a } else { -a };
    vstd::arithmetic::div_mod::lemma_fundamental_div_mod(n, b);
    assert(0 <= n % b < (if b > 0 { b } else { -b })) by (nonlinear_arith)
        requires
            b != 0,
    ;
    if a < 0 {
        assert(b * trunc_div(a, b) == -(b * (n / b))) by (nonlinear_arith)
            requires
                trunc_div(a, b) == -(n / b),
        ;
    }
}

/// On truth values and texts the binary instructions mean what they name:
/// with `p` (or `x`) on top of the stack and `q` (or `y`) below, `AND` and
/// `OR` push `p && q` and `p || q`, `CEQ` and `CNEQ` push whether the two
/// are equal or differ, and `ADD` on texts pushes `x` followed by `y`.
pub proof fn law_bool_text_binary(t: VmV, p: bool, q: bool, x: Seq<char>, y: Seq<char>)
    ensures
        binary(t, Instruction::AND, ObjectV::Bool(p), ObjectV::Bool(q)) == push_finish(t, ObjectV::Bool(p && q), Instruction::AND),
        binary(t, Instruction::OR, ObjectV::Bool(p), ObjectV::Bool(q)) == push_finish(t, ObjectV::Bool(p || q), Instruction::OR),
        binary(t, Instruction::CEQ, ObjectV::Bool(p), ObjectV::Bool(q)) == push_finish(t, ObjectV::Bool(p == q), Instruction::CEQ),
        binary(t, Instruction::CNEQ, ObjectV::Bool(p), ObjectV::Bool(q)) == push_finish(t, ObjectV::Bool(p != q), Instruction::CNEQ),
        binary(t, Instruction::ADD, ObjectV::String(x), ObjectV::String(y)) == push_finish(t, ObjectV::String(x + y), Instruction::ADD),
        binary(t, Instruction::CEQ, ObjectV::String(x), ObjectV::String(y)) == push_finish(t, ObjectV::Bool(x == y), Instruction::CEQ),
        binary(t, Instruction::CNEQ, ObjectV::String(x), ObjectV::String(y)) == push_finish(t, ObjectV::Bool(x != y), Instruction::CNEQ),
{
}

} // verus!
