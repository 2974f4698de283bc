pub mod errors;
pub mod frame;

use vstd::prelude::*;

use self::errors::VmError;
use self::frame::{frame_text, Frame, FrameV};
use super::bytecode::instruction::Instruction;
use super::bytecode::opcode::op_length;
use super::bytecode::{consts_text, push_consts_text, Bytecode};
use super::vm_spec::{
    advance, binary, call, cur, exec_ins, finish, in_i64, int_arith, int_compare, is_binary,
    is_compare, is_int_arith, leave_frame, pop, pop_some, push, push_finish, stack_range, step,
    trunc_div, trunc_rem, vm_inv, with_ic, Step, VmV, STACK_SIZE,
};
use crate::object::{
    closure_view, fun_view, objects_view, type_of, Array, Bool, ClosureFunction, ClosureV,
    CompiledFunction, Int, Object, ObjectTrait, ObjectType, ObjectV, StringObject, object_text,
};
use crate::utils::{add_pad, decimal, pad_left, pad_lines, push_decimal_padded};

verus! {

pub open spec fn opt_view(o: Option<Object>) -> Option<ObjectV> {
    match o {
        Some(x) => Some(x@),
        None => None,
    }
}

pub open spec fn stack_view(s: Seq<Option<Object>>) -> Seq<Option<ObjectV>> {
    Seq::new(s.len(), |i: int| opt_view(s[i]))
}

pub open spec fn frames_view(s: Seq<Frame>) -> Seq<FrameV> {
    Seq::new(s.len(), |i: int| s[i]@)
}

/// Whether a call's outcome agrees with a step of the machine.
pub open spec fn step_matches(res: Result<(), VmError>, st: Step, after: VmV) -> bool {
    match (res, st) {
        (Ok(()), Step::Next(s)) => after == s,
        (Err(e), Step::Fail(ev, s)) => e@ == ev && after == s,
        _ => false,
    }
}

/// The text of one stack slot: an object (a compiled function indented
/// by a tab at each line), or `NONE`.
pub open spec fn slot_text(o: Option<ObjectV>) -> Seq<char> {
    match o {
        None => "NONE"@,
        Some(v) => if type_of(v) == ObjectType::CompiledFunction {
            "\t"@ + pad_lines(object_text(v), "\t"@)
        } else {
            object_text(v)
        },
    }
}

/// The character that pads the index of slot `idx` against the top `sp`.
pub open spec fn index_fill(idx: int, sp: int) -> char {
    if idx < sp {
        '-'
    } else if idx == sp {
        '0'
    } else {
        '+'
    }
}

/// The lines of the first `n` stack slots.
pub open spec fn stack_text(stack: Seq<Option<ObjectV>>, sp: int, n: int) -> Seq<char>
    decreases n,
{
    if n <= 0 {
        Seq::empty()
    } else {
        stack_text(stack, sp, n - 1) + pad_left(decimal((n - 1) as nat), 6, index_fill(n - 1, sp)) + "\t\t"@
            + slot_text(stack[n - 1]) + "\n"@
    }
}

/// The text of the first `n` frames, the one at `fp` announced as the
/// current one.
pub open spec fn frames_text(fs: Seq<FrameV>, fp: int, n: int) -> Seq<char>
    decreases n,
{
    if n <= 0 {
        Seq::empty()
    } else {
        frames_text(fs, fp, n - 1) + (if n - 1 == fp {
            "Current Frame:\n"@
        } else {
            Seq::empty()
        }) + frame_text(fs[n - 1])
    }
}

/// Append the text of a stack slot.
fn push_slot_text(buf: &mut String, slot: &Option<Object>)
    ensures
        final(buf)@ == old(buf)@ + slot_text(opt_view(*slot)),
{
    proof {
        reveal_strlit("NONE");
        reveal_strlit("\t");
    }
    match slot {
        None => buf.append("NONE"),
        Some(obj) => {
            let text = obj.to_str();
            if obj.get_type() == ObjectType::CompiledFunction {
                let padded = add_pad(text.as_str(), "\t");
                buf.append(padded.as_str());
            } else {
                buf.append(text.as_str());
            }
        },
    }
}

pub struct VM {
    /// stack[0] have reserved for inner representation of "NONE"
    stack: Vec<Option<Object>>,
    /// stack pointer, postion of last written object.
    sp: usize,
    constants: Vec<Object>,
    global: Vec<Object>,
    frames: Vec<Frame>,
    /// frame pointer
    fp: usize,
}

impl View for VM {
    type V = VmV;

    closed spec fn view(&self) -> VmV {
        VmV {
            stack: stack_view(self.stack@),
            sp: self.sp,
            constants: objects_view(self.constants@),
            global: objects_view(self.global@),
            frames: frames_view(self.frames@),
            fp: self.fp,
        }
    }
}

/// The machine about to run `code` as its main function.
pub open spec fn initial(constants: Seq<ObjectV>, instructions: Seq<u8>) -> VmV {
    VmV {
        stack: Seq::new(STACK_SIZE as nat, |i: int| None),
        sp: 0,
        constants,
        global: Seq::empty(),
        frames: seq![FrameV { cf: ClosureV { fun: crate::object::FunV { instructions, local_len: 0, arg_len: 0 }, free: Seq::empty() }, bp: 0, ic: 0 }],
        fp: 0,
    }
}

impl VM {
    /// The machine's shape: a full-size stack and one frame per frame
    /// pointer position.
    pub open spec fn wf(&self) -> bool {
        vm_inv(self@)
    }

    pub fn new(code: Bytecode) -> (res: Self)
        ensures
            res.wf(),
            res@ == initial(objects_view(code.constants@), code.instructions@),
    {
        let main_func = CompiledFunction { instructions: code.instructions, local_len: 0, arg_len: 0 };
        let main_closure = ClosureFunction { fun: main_func, free: Vec::new() };
        let main_frame = Frame::new(main_closure, 0);
        let mut frames: Vec<Frame> = Vec::with_capacity(1024);
        frames.push(main_frame);
        let mut stack: Vec<Option<Object>> = Vec::new();
        let mut i: usize = 0;
        while i < STACK_SIZE
            invariant
                i <= STACK_SIZE,
                stack@.len() == i,
                forall|j: int| 0 <= j < i ==> #[trigger] stack@[j] is None,
            decreases STACK_SIZE - i,
        {
            stack.push(None);
            i = i + 1;
        }
        let vm = Self {
            stack,
            sp: 0,
            constants: code.constants,
            global: Vec::with_capacity(256),
            frames,
            fp: 0,
        };
        assert(objects_view(Seq::<Object>::empty()) =~= Seq::<ObjectV>::empty());
        assert(vm@.stack =~= initial(objects_view(code.constants@), code.instructions@).stack);
        assert(vm@.frames =~= initial(objects_view(code.constants@), code.instructions@).frames);
        assert(objects_view(Seq::<Object>::empty()) =~= Seq::<ObjectV>::empty());
        assert(vm@.global =~= Seq::<ObjectV>::empty());
        vm
    }

    fn push_stack(&mut self, obj: Object)
        requires
            old(self).wf(),
            push(old(self)@, obj@) is Some,
        ensures
            final(self).wf(),
            final(self)@ == push(old(self)@, obj@)->0,
    {
        let ghost o = obj@;
        let idx = self.sp + 1;
        self.stack[idx] = Some(obj);
        self.sp = idx;
        assert(self@.stack =~= old(self)@.stack.update(idx as int, Some(o)));
    }

    fn pop_stack(&mut self) -> (res: Option<Object>)
        requires
            old(self).wf(),
            old(self)@.sp < old(self)@.stack.len(),
        ensures
            final(self).wf(),
            opt_view(res) == pop(old(self)@).0,
            final(self)@ == pop(old(self)@).1,
    {
        if self.sp > 0 {
            let result = match &self.stack[self.sp] {
                Some(o) => Some(o.clone()),
                None => None,
            };
            self.sp -= 1;
            result
        } else {
            self.stack[self.sp + 1] = None;
            assert(self@.stack =~= old(self)@.stack.update(1, None));
            None
        }
    }

    fn current_frame(&self) -> (res: &Frame)
        requires
            self.wf(),
        ensures
            res@ == cur(self@),
    {
        &self.frames[self.fp]
    }

    fn set_cur_ic(&mut self, ic: usize)
        requires
            old(self).wf(),
        ensures
            final(self).wf(),
            final(self)@ == with_ic(old(self)@, ic),
    {
        let fp = self.fp;
        self.frames[fp].set_ic(ic);
        assert(self@.frames =~= with_ic(old(self)@, ic).frames);
    }

    fn add_cur_ic(&mut self, n: usize)
        requires
            old(self).wf(),
            cur(old(self)@).ic + n <= usize::MAX,
        ensures
            final(self).wf(),
            final(self)@ == with_ic(old(self)@, (cur(old(self)@).ic + n) as usize),
    {
        let fp = self.fp;
        self.frames[fp].add_ic(n);
        assert(self@.frames =~= with_ic(old(self)@, (cur(old(self)@).ic + n) as usize).frames);
    }

    fn finish(&mut self, ins: Instruction) -> (res: Result<(), VmError>)
        requires
            old(self).wf(),
            finish(old(self)@, ins) is Some,
        ensures
            final(self).wf(),
            step_matches(res, finish(old(self)@, ins)->0, final(self)@),
    {
        let len = ins.opcode().length();
        self.add_cur_ic(len);
        Ok(())
    }

    fn push_finish(&mut self, obj: Object, ins: Instruction) -> (res: Result<(), VmError>)
        requires
            old(self).wf(),
            push_finish(old(self)@, obj@, ins) is Some,
        ensures
            final(self).wf(),
            step_matches(res, push_finish(old(self)@, obj@, ins)->0, final(self)@),
    {
        self.push_stack(obj);
        self.finish(ins)
    }

    fn push_frame(&mut self, frame: Frame)
        requires
            old(self).wf(),
            old(self).fp + 1 <= usize::MAX,
        ensures
            final(self).wf(),
            final(self)@ == (VmV { frames: old(self)@.frames.push(frame@), fp: (old(self)@.fp + 1) as usize, ..old(self)@ }),
    {
        let ghost f = frame@;
        self.fp += 1;
        self.frames.push(frame);
        assert(self@.frames =~= old(self)@.frames.push(f));
    }

    fn pop_frame(&mut self) -> (res: Frame)
        requires
            old(self).wf(),
            old(self).fp > 0,
        ensures
            final(self).wf(),
            res@ == cur(old(self)@),
            final(self)@ == (VmV { frames: old(self)@.frames.drop_last(), fp: (old(self)@.fp - 1) as usize, ..old(self)@ }),
    {
        self.fp -= 1;
        let f = self.frames.pop().unwrap();
        assert(self@.frames =~= old(self)@.frames.drop_last());
        f
    }

    fn exec_binary(&mut self, ins: Instruction) -> (res: Result<(), VmError>)
        requires
            old(self).wf(),
            is_binary(ins),
            exec_ins(old(self)@, ins) is Some,
        ensures
            final(self).wf(),
            step_matches(res, exec_ins(old(self)@, ins)->0, final(self)@),
    {
        let ghost s0 = self@;
        let left = self.pop_stack().unwrap();
        let right = self.pop_stack().unwrap();
        let ghost t2 = self@;
        assert(exec_ins(s0, ins) == binary(t2, ins, left@, right@));
        if left.get_type() == right.get_type() {
            match left {
                Object::Int(l) => {
                    let r = match right {
                        Object::Int(r) => r,
                        _ => {
                            proof {
                                assert(false);
                            }
                            return Ok(());
                        },
                    };
                    match ins {
                        Instruction::ADD => self.push_finish(Object::Int(Int { value: l.value + r.value }), ins),
                        Instruction::SUB => self.push_finish(Object::Int(Int { value: l.value - r.value }), ins),
                        Instruction::PRODUCT => self.push_finish(Object::Int(Int { value: l.value * r.value }), ins),
                        Instruction::DIVIDE => self.push_finish(Object::Int(Int { value: l.value / r.value }), ins),
                        Instruction::MOD => self.push_finish(Object::Int(Int { value: l.value % r.value }), ins),
                        Instruction::BAND => self.push_finish(Object::Int(Int { value: l.value & r.value }), ins),
                        Instruction::BOR => self.push_finish(Object::Int(Int { value: l.value | r.value }), ins),
                        Instruction::CGT => self.push_finish(Object::Bool(Bool { value: l.value > r.value }), ins),
                        Instruction::CGTE => self.push_finish(Object::Bool(Bool { value: l.value >= r.value }), ins),
                        Instruction::CLT => self.push_finish(Object::Bool(Bool { value: l.value < r.value }), ins),
                        Instruction::CLTE => self.push_finish(Object::Bool(Bool { value: l.value <= r.value }), ins),
                        Instruction::CEQ => self.push_finish(Object::Bool(Bool { value: l.value == r.value }), ins),
                        Instruction::CNEQ => self.push_finish(Object::Bool(Bool { value: l.value != r.value }), ins),
                        invalid => Err(VmError::InvalidIntegerInstruction(invalid)),
                    }
                },
                Object::Bool(l) => {
                    let r = match right {
                        Object::Bool(r) => r,
                        _ => {
                            proof {
                                assert(false);
                            }
                            return Ok(());
                        },
                    };
                    match ins {
                        Instruction::AND => self.push_finish(Object::Bool(Bool { value: l.value && r.value }), ins),
                        Instruction::OR => self.push_finish(Object::Bool(Bool { value: l.value || r.value }), ins),
                        Instruction::CEQ => self.push_finish(Object::Bool(Bool { value: l.value == r.value }), ins),
                        Instruction::CNEQ => self.push_finish(Object::Bool(Bool { value: l.value != r.value }), ins),
                        invalid => Err(VmError::InvalidBoolInstruction(invalid)),
                    }
                },
                Object::String(l) => {
                    let r = match right {
                        Object::String(r) => r,
                        _ => {
                            proof {
                                assert(false);
                            }
                            return Ok(());
                        },
                    };
                    match ins {
                        Instruction::ADD => {
                            let mut value = l.value;
                            value.append(r.value.as_str());
                            self.push_finish(Object::String(StringObject { value }), ins)
                        },
                        Instruction::CEQ => {
                            let value = l.value == r.value;
                            self.push_finish(Object::Bool(Bool { value }), ins)
                        },
                        Instruction::CNEQ => {
                            let value = l.value != r.value;
                            self.push_finish(Object::Bool(Bool { value }), ins)
                        },
                        invalid => Err(VmError::InvalidStringInstruction(invalid)),
                    }
                },
                _ => self.finish(ins),
            }
        } else {
            Err(VmError::TypeNotSame { left, right })
        }
    }

    fn exec_unary_or_jump(&mut self, ins: Instruction) -> (res: Result<(), VmError>)
        requires
            old(self).wf(),
            ins is BANG || ins is NEG || ins is JIS || ins is JNS || ins is POP,
            exec_ins(old(self)@, ins) is Some,
        ensures
            final(self).wf(),
            step_matches(res, exec_ins(old(self)@, ins)->0, final(self)@),
    {
        if let Instruction::POP = ins {
            self.pop_stack();
            return self.finish(ins);
        }
        let right = self.pop_stack().unwrap();
        match ins {
            Instruction::BANG => {
                if right.get_type() == ObjectType::Bool {
                    match right {
                        Object::Bool(b) => self.push_finish(Object::Bool(Bool { value: !b.value }), ins),
                        _ => {
                            proof {
                                assert(false);
                            }
                            Ok(())
                        },
                    }
                } else {
                    Err(VmError::NotABolean { obj: right })
                }
            },
            Instruction::NEG => {
                if right.get_type() == ObjectType::Int {
                    match right {
                        Object::Int(v) => self.push_finish(Object::Int(Int { value: -v.value }), ins),
                        _ => {
                            proof {
                                assert(false);
                            }
                            Ok(())
                        },
                    }
                } else {
                    Err(VmError::NotAInt { obj: right })
                }
            },
            Instruction::JIS { idx } => {
                if right.get_type() == ObjectType::Bool {
                    match right {
                        Object::Bool(b) => {
                            if b.value {
                                self.set_cur_ic(idx);
                                Ok(())
                            } else {
                                self.finish(ins)
                            }
                        },
                        _ => {
                            proof {
                                assert(false);
                            }
                            Ok(())
                        },
                    }
                } else {
                    Err(VmError::JumpConditionNotABolean { obj: right })
                }
            },
            Instruction::JNS { idx } => {
                if right.get_type() == ObjectType::Bool {
                    match right {
                        Object::Bool(b) => {
                            if !b.value {
                                self.set_cur_ic(idx);
                                Ok(())
                            } else {
                                self.finish(ins)
                            }
                        },
                        _ => {
                            proof {
                                assert(false);
                            }
                            Ok(())
                        },
                    }
                } else {
                    Err(VmError::JumpConditionNotABolean { obj: right })
                }
            },
            _ => {
                proof {
                    assert(false);
                }
                Ok(())
            },
        }
    }

    fn exec_variable(&mut self, ins: Instruction) -> (res: Result<(), VmError>)
        requires
            old(self).wf(),
            ins is CONST || ins is DEFGLB || ins is GETGLB || ins is DEFLCL || ins is GETLCL
                || ins is GETFREE || ins is GETCUR,
            exec_ins(old(self)@, ins) is Some,
        ensures
            final(self).wf(),
            step_matches(res, exec_ins(old(self)@, ins)->0, final(self)@),
    {
        match ins {
            Instruction::CONST { idx } => {
                // load constants into stack
                let obj = self.constants[idx].clone();
                self.push_finish(obj, ins)
            },
            Instruction::DEFGLB { idx } => {
                // define global variable
                let obj = self.pop_stack().unwrap();
                let ghost o = obj@;
                if idx < self.global.len() {
                    let ghost g = self@.global;
                    self.global[idx] = obj;
                    assert(self@.global =~= g.update(idx as int, o));
                } else {
                    let ghost g = self@.global;
                    self.global.push(obj);
                    assert(self@.global =~= g.push(o));
                }
                self.finish(ins)
            },
            Instruction::GETGLB { idx } => {
                // get global variable
                let obj = self.global[idx].clone();
                self.push_finish(obj, ins)
            },
            Instruction::DEFLCL { idx } => {
                // define local variable
                let obj = self.pop_stack().unwrap();
                let ghost o = obj@;
                let offset = self.current_frame().bp() + 1 + idx;
                let ghost st = self@.stack;
                self.stack[offset] = Some(obj);
                assert(self@.stack =~= st.update(offset as int, Some(o)));
                self.finish(ins)
            },
            Instruction::GETLCL { idx } => {
                // get local variable
                let offset = self.current_frame().bp() + 1 + idx;
                let obj = match &self.stack[offset] {
                    Some(o) => o.clone(),
                    None => {
                        proof {
                            assert(false);
                        }
                        return Ok(());
                    },
                };
                self.push_finish(obj, ins)
            },
            Instruction::GETFREE { idx } => {
                let obj = self.current_frame().get_closure_ref().free[idx].clone();
                self.push_finish(obj, ins)
            },
            Instruction::GETCUR => {
                // push current function to stack
                let cl = self.current_frame().get_closure_ref().clone();
                self.push_finish(Object::Closure(cl), ins)
            },
            _ => {
                proof {
                    assert(false);
                }
                Ok(())
            },
        }
    }

    fn exec_array(&mut self, count: usize) -> (res: Result<(), VmError>)
        requires
            old(self).wf(),
            exec_ins(old(self)@, Instruction::ARRAY { count }) is Some,
        ensures
            final(self).wf(),
            step_matches(res, exec_ins(old(self)@, Instruction::ARRAY { count })->0, final(self)@),
    {
        let ghost s0 = self@;
        let ghost lo = self.sp + 1 - count;
        let ghost els = stack_range(s0, lo, self.sp + 1)->0;
        let mut elements: Vec<Object> = Vec::with_capacity(count);
        let mut k: usize = count;
        while k >= 1
            invariant
                self@ == s0,
                self.wf(),
                k <= count <= self.sp,
                lo == self.sp + 1 - count,
                stack_range(s0, lo, self.sp + 1) == Some(els),
                elements@.len() == count - k,
                forall|i: int| 0 <= i < count - k ==> (#[trigger] elements@[i])@ == els[i],
            decreases k,
        {
            let obj = match &self.stack[self.sp + 1 - k] {
                Some(o) => o.clone(),
                None => {
                    proof {
                        assert(s0.stack[lo + (count - k)] is Some);
                        assert(false);
                    }
                    return Ok(());
                },
            };
            elements.push(obj);
            k = k - 1;
        }
        self.sp -= count;
        let array = Object::Array(Array { elements });
        assert(objects_view(elements@) =~= els);
        self.push_finish(array, Instruction::ARRAY { count })
    }

    fn exec_index(&mut self) -> (res: Result<(), VmError>)
        requires
            old(self).wf(),
            exec_ins(old(self)@, Instruction::INDEX) is Some,
        ensures
            final(self).wf(),
            step_matches(res, exec_ins(old(self)@, Instruction::INDEX)->0, final(self)@),
    {
        let idx = self.pop_stack().unwrap();
        if idx.get_type() == ObjectType::Int {
            let index = match idx {
                Object::Int(i) => i,
                _ => {
                    proof {
                        assert(false);
                    }
                    return Ok(());
                },
            };
            let tgt = self.pop_stack().unwrap();
            let ghost tv = tgt@;
            if tgt.get_type() == ObjectType::Array {
                match tgt {
                    Object::Array(arr) => {
                        let k = #[verifier::truncate] (index.value as usize);
                        assert(tv == ObjectV::Array(objects_view(arr.elements@)));
                        assert(objects_view(arr.elements@).len() == arr.elements@.len());
                        let el = arr.elements[k].clone();
                        self.push_finish(el, Instruction::INDEX)
                    },
                    _ => {
                        proof {
                            assert(false);
                        }
                        Ok(())
                    },
                }
            } else {
                Err(VmError::IndexTargetNotAArray { obj: tgt })
            }
        } else {
            Err(VmError::IndexNotAInt { obj: idx })
        }
    }

    fn call(&mut self, arg_len: usize)
        requires
            old(self).wf(),
            call(old(self)@, arg_len) is Some,
        ensures
            final(self).wf(),
            final(self)@ == call(old(self)@, arg_len)->0,
    {
        let new_bp = self.sp - arg_len;
        let cl = match &self.stack[new_bp] {
            Some(Object::Closure(cl)) => cl.clone(),
            _ => {
                proof {
                    assert(false);
                }
                return ;
            },
        };
        let local_len = cl.fun.local_len;
        let new_frame = Frame::new(cl, new_bp);
        let _ = self.frames.len();
        self.push_frame(new_frame);
        self.sp = new_bp + local_len;
    }

    fn exec_frame(&mut self, ins: Instruction) -> (res: Result<(), VmError>)
        requires
            old(self).wf(),
            ins is CALL || ins is RETN || ins is RETV || ins is JMP,
            exec_ins(old(self)@, ins) is Some,
        ensures
            final(self).wf(),
            step_matches(res, exec_ins(old(self)@, ins)->0, final(self)@),
    {
        match ins {
            Instruction::JMP { idx } => {
                self.set_cur_ic(idx);
                Ok(())
            },
            Instruction::CALL { arg_len } => {
                // the caller resumes after the call; the callee starts at
                // its first instruction
                let len = ins.opcode().length();
                self.add_cur_ic(len);
                self.call(arg_len);
                Ok(())
            },
            Instruction::RETN => {
                let popped_frame = self.pop_frame();
                self.sp = popped_frame.bp() - 1;
                Ok(())
            },
            Instruction::RETV => {
                let value = self.pop_stack().unwrap();
                let popped_frame = self.pop_frame();
                self.sp = popped_frame.bp() - 1;
                self.push_stack(value);
                Ok(())
            },
            _ => {
                proof {
                    assert(false);
                }
                Ok(())
            },
        }
    }

    fn make_closure(&mut self, fn_idx: usize, free_len: usize) -> (res: Result<(), VmError>)
        requires
            old(self).wf(),
            exec_ins(old(self)@, Instruction::CLOSURE { idx: fn_idx, free: free_len }) is Some,
        ensures
            final(self).wf(),
            step_matches(res, exec_ins(old(self)@, Instruction::CLOSURE { idx: fn_idx, free: free_len })->0, final(self)@),
    {
        let ghost s0 = self@;
        let ins = Instruction::CLOSURE { idx: fn_idx, free: free_len };
        let compiled_func = match &self.constants[fn_idx] {
            Object::CompiledFunction(f) => f.clone(),
            _ => {
                proof {
                    assert(false);
                }
                return Ok(());
            },
        };
        let ghost lo = self.sp + 1 - free_len;
        let ghost vals = stack_range(s0, lo, self.sp + 1)->0;
        let mut free: Vec<Object> = Vec::with_capacity(free_len);
        let mut idx: usize = 0;
        while idx < free_len
            invariant
                self@ == s0,
                self.wf(),
                idx <= free_len <= self.sp + 1,
                self.sp + 1 <= usize::MAX,
                lo == self.sp + 1 - free_len,
                stack_range(s0, lo, self.sp + 1) == Some(vals),
                free@.len() == idx,
                forall|i: int| 0 <= i < idx ==> (#[trigger] free@[i])@ == vals[i],
            decreases free_len - idx,
        {
            let obj = match &self.stack[self.sp + 1 - free_len + idx] {
                Some(o) => o.clone(),
                None => {
                    proof {
                        assert(s0.stack[lo + idx] is Some);
                        assert(false);
                    }
                    return Ok(());
                },
            };
            free.push(obj);
            idx = idx + 1;
        }
        assert(objects_view(free@) =~= vals);
        let closure = ClosureFunction { fun: compiled_func, free };
        self.push_finish(Object::Closure(closure), ins)
    }

    /// Execute the instruction at the current frame's counter.
    pub fn run_single(&mut self) -> (res: Result<(), VmError>)
        requires
            old(self).wf(),
            step(old(self)@) is Some,
        ensures
            final(self).wf(),
            step_matches(res, step(old(self)@)->0, final(self)@),
    {
        let ins_rst = self.current_frame().rext_instruction();
        match ins_rst {
            Err(err) => Err(VmError::InstructionReadFailure(err)),
            Ok(instruction) => {
                match instruction {
                    Instruction::POP | Instruction::BANG | Instruction::NEG | Instruction::JIS { .. }
                    | Instruction::JNS { .. } => self.exec_unary_or_jump(instruction),
                    Instruction::CONST { .. } | Instruction::DEFGLB { .. } | Instruction::GETGLB { .. }
                    | Instruction::DEFLCL { .. } | Instruction::GETLCL { .. } | Instruction::GETFREE { .. }
                    | Instruction::GETCUR => self.exec_variable(instruction),
                    Instruction::ADD | Instruction::SUB | Instruction::PRODUCT | Instruction::DIVIDE
                    | Instruction::MOD | Instruction::CGT | Instruction::CGTE | Instruction::CLT
                    | Instruction::CLTE | Instruction::CEQ | Instruction::CNEQ | Instruction::AND
                    | Instruction::OR | Instruction::BAND | Instruction::BOR => self.exec_binary(instruction),
                    Instruction::JMP { .. } | Instruction::CALL { .. } | Instruction::RETN
                    | Instruction::RETV => self.exec_frame(instruction),
                    Instruction::ARRAY { count } => self.exec_array(count),
                    Instruction::INDEX => self.exec_index(),
                    Instruction::CLOSURE { idx, free } => self.make_closure(idx, free),
                    Instruction::PUSH | Instruction::JEQ { .. } | Instruction::JNEQ { .. } => {
                        proof {
                            assert(false);
                        }
                        Ok(())
                    },
                }
            },
        }
    }

    /// Whether the current frame's counter is inside its code.
    pub fn is_runable(&self) -> (res: bool)
        requires
            self.wf(),
        ensures
            res == (cur(self@).ic < cur(self@).cf.fun.instructions.len()),
    {
        self.current_frame().is_runnable()
    }

    /// The value on top of the stack.
    pub fn top(&self) -> (res: &Option<Object>)
        requires
            self.wf(),
            self@.sp < STACK_SIZE,
        ensures
            opt_view(*res) == self@.stack[self@.sp as int],
    {
        &self.stack[self.sp]
    }

    /// The slot just above the top: the value taken by the last pop.
    /// The stack pointer: the slot of the top of the stack.
    pub fn stack_pointer(&self) -> (res: usize)
        ensures
            res == self@.sp,
    {
        self.sp
    }

    pub fn last_pop(&self) -> (res: &Option<Object>)
        requires
            self.wf(),
            self@.sp + 1 < STACK_SIZE,
        ensures
            opt_view(*res) == self@.stack[self@.sp + 1],
    {
        &self.stack[self.sp + 1]
    }

    /// The stack up to five slots above the top, one line per slot: its
    /// index padded with `-` below the top, `0` at it and `+` above it,
    /// then its object (a compiled function indented), or `NONE`.
    /// Whether the current frame's counter can move past `len` bytes.
    fn can_advance(&self, len: usize) -> (res: bool)
        requires
            self.wf(),
        ensures
            res == (advance(self@, len as nat) is Some),
    {
        assert(self@.frames[self@.fp as int] == self.frames@[self.fp as int]@);
        self.frames[self.fp].ic() <= usize::MAX - len
    }

    /// Whether stack slot `i` holds a value that a pop can take.
    fn filled(&self, i: usize) -> (res: bool)
        requires
            self.wf(),
        ensures
            res == (0 < i < self@.stack.len() && self@.stack[i as int] is Some),
    {
        if 0 < i && i < self.stack.len() {
            assert(self@.stack[i as int] == opt_view(self.stack@[i as int]));
            self.stack[i].is_some()
        } else {
            false
        }
    }

    /// Whether the slots `lo..hi` are all filled.
    fn range_filled(&self, lo: usize, hi: usize) -> (res: bool)
        requires
            self.wf(),
            lo <= hi <= self@.stack.len(),
        ensures
            res == (forall|i: int| lo <= i < hi ==> #[trigger] self@.stack[i] is Some),
    {
        let mut i = lo;
        while i < hi
            invariant
                self.wf(),
                lo <= i <= hi <= self@.stack.len(),
                forall|j: int| lo <= j < i ==> #[trigger] self@.stack[j] is Some,
            decreases hi - i,
        {
            assert(self@.stack[i as int] == opt_view(self.stack@[i as int]));
            if self.stack[i].is_none() {
                return false;
            }
            i = i + 1;
        }
        true
    }

    /// Whether a binary instruction on `left` (taken first) and `right`
    /// runs without panicking, where the counter moves on when `adv`.
    fn binary_ok(ins: Instruction, left: &Object, right: &Object, adv: bool) -> (res: bool)
        ensures
            forall|t: VmV|
                #![trigger binary(t, ins, left@, right@)]
                advance(t, op_length(ins.spec_opcode())) is Some == adv && t.sp + 1 < t.stack.len() ==> (res
                    == (binary(t, ins, left@, right@) is Some)),
    {
        if left.get_type() != right.get_type() {
            return true;
        }
        match (left, right) {
            (Object::Int(a), Object::Int(b)) => {
                let (a, b) = (a.value, b.value);
                match ins {
                    Instruction::ADD => a.checked_add(b).is_some() && adv,
                    Instruction::SUB => a.checked_sub(b).is_some() && adv,
                    Instruction::PRODUCT => a.checked_mul(b).is_some() && adv,
                    Instruction::DIVIDE | Instruction::MOD => b != 0 && !(a == i64::MIN && b == -1) && adv,
                    Instruction::BAND | Instruction::BOR => adv,
                    Instruction::CGT | Instruction::CGTE | Instruction::CLT | Instruction::CLTE
                    | Instruction::CEQ | Instruction::CNEQ => adv,
                    _ => true,
                }
            },
            (Object::Bool(_), Object::Bool(_)) => match ins {
                Instruction::AND | Instruction::OR | Instruction::CEQ | Instruction::CNEQ => adv,
                _ => true,
            },
            (Object::String(_), Object::String(_)) => match ins {
                Instruction::ADD | Instruction::CEQ | Instruction::CNEQ => adv,
                _ => true,
            },
            _ => adv,
        }
    }

    /// Whether the next step runs without the machine panicking: an
    /// instruction that cannot be read fails with an error, and the others
    /// run where their operands are there.
    pub fn can_step(&self) -> (res: bool)
        requires
            self.wf(),
        ensures
            res == (step(self@) is Some),
    {
        let ins = match self.current_frame().rext_instruction() {
            Ok(ins) => ins,
            Err(_) => return true,
        };
        let adv = self.can_advance(ins.opcode().length());
        let sp = self.sp;
        let n = self.stack.len();
        let ghost s = self@;
        assert(s.stack.len() == n);
        let bp = self.current_frame().bp();
        assert(step(s) == exec_ins(s, ins));
        let r = match ins {
            Instruction::PUSH | Instruction::JEQ { .. } | Instruction::JNEQ { .. } => false,
            Instruction::POP => {
                let r = sp < n && adv;
                assert(r == (exec_ins(s, ins) is Some));
                r
            },
            Instruction::CONST { idx } => {
                let r = idx < self.constants.len() && sp < n - 1 && adv;
                assert(r == (exec_ins(s, ins) is Some));
                r
            },
            Instruction::DEFGLB { .. } => {
                let r = self.filled(sp) && adv;
                assert(r == (exec_ins(s, ins) is Some));
                r
            },
            Instruction::GETGLB { idx } => {
                let r = idx < self.global.len() && sp < n - 1 && adv;
                assert(r == (exec_ins(s, ins) is Some));
                r
            },
            Instruction::DEFLCL { idx } => {
                let r = self.filled(sp) && bp < n - 1 && idx < n - 1 - bp && adv;
                assert(r == (exec_ins(s, ins) is Some));
                r
            },
            Instruction::GETLCL { idx } => {
                let r = bp < n - 1 && idx < n - 1 - bp && self.filled(bp + 1 + idx) && sp < n - 1 && adv;
                assert(r == (exec_ins(s, ins) is Some));
                r
            },
            Instruction::GETFREE { idx } => {
                let r = idx < self.current_frame().get_closure_ref().free.len() && sp < n - 1 && adv;
                assert(r == (exec_ins(s, ins) is Some));
                r
            },
            Instruction::GETCUR => {
                let r = sp < n - 1 && adv;
                assert(r == (exec_ins(s, ins) is Some));
                r
            },
            Instruction::BANG => {
                let r = self.filled(sp) && match &self.stack[sp] {
                    Some(Object::Bool(_)) => adv,
                    _ => true,
                };
                assert(r == (exec_ins(s, ins) is Some));
                r
            },
            Instruction::NEG => {
                let r = self.filled(sp) && match &self.stack[sp] {
                    Some(Object::Int(v)) => v.value != i64::MIN && adv,
                    _ => true,
                };
                assert(r == (exec_ins(s, ins) is Some));
                r
            },
            Instruction::JMP { .. } => true,
            Instruction::JIS { .. } => {
                let r = self.filled(sp) && match &self.stack[sp] {
                    Some(Object::Bool(b)) => b.value || adv,
                    _ => true,
                };
                assert(r == (exec_ins(s, ins) is Some));
                r
            },
            Instruction::JNS { .. } => {
                let r = self.filled(sp) && match &self.stack[sp] {
                    Some(Object::Bool(b)) => !b.value || adv,
                    _ => true,
                };
                assert(r == (exec_ins(s, ins) is Some));
                r
            },
            Instruction::ARRAY { count } => {
                let r = count <= sp && sp < n && self.range_filled(sp + 1 - count, sp + 1) && sp - count < n - 1
                    && adv;
                assert(r == (exec_ins(s, ins) is Some));
                r
            },
            Instruction::INDEX => {
                let r = self.filled(sp) && match &self.stack[sp] {
                    Some(Object::Int(v)) => self.filled(sp - 1) && match &self.stack[sp - 1] {
                        Some(Object::Array(arr)) => {
                            assert(objects_view(arr.elements@).len() == arr.elements@.len());
                            assert(s.stack[sp - 1] == opt_view(self.stack@[sp - 1]));
                            (#[verifier::truncate] (v.value as usize)) < arr.elements.len() && adv
                        },
                        _ => {
                            assert(s.stack[sp - 1] == opt_view(self.stack@[sp - 1]));
                            true
                        },
                    },
                    _ => true,
                };
                assert(r == (exec_ins(s, ins) is Some));
                r
            },
            Instruction::CALL { arg_len } => {
                let r = adv && arg_len <= sp && sp - arg_len < n && match &self.stack[sp - arg_len] {
                    Some(Object::Closure(cl)) => cl.fun.local_len <= usize::MAX - (sp - arg_len),
                    _ => false,
                };
                assert(r == (exec_ins(s, ins) is Some));
                r
            },
            Instruction::RETN => {
                let r = self.fp != 0 && bp != 0;
                assert(r == (exec_ins(s, ins) is Some));
                r
            },
            Instruction::RETV => {
                let r = self.filled(sp) && self.fp != 0 && bp != 0 && bp < n;
                assert(r == (exec_ins(s, ins) is Some));
                r
            },
            Instruction::CLOSURE { idx, free } => {
                let r = idx < self.constants.len() && sp < n - 1 && free <= sp + 1 && match &self.constants[idx] {
                    Object::CompiledFunction(_) => self.range_filled(sp + 1 - free, sp + 1) && adv,
                    _ => false,
                };
                assert(r == (exec_ins(s, ins) is Some));
                r
            },
            _ => {
                let r = self.filled(sp) && self.filled(sp - 1) && match (&self.stack[sp], &self.stack[sp - 1]) {
                    (Some(left), Some(right)) => Self::binary_ok(ins, left, right, adv),
                    _ => false,
                };
                assert(r == (exec_ins(s, ins) is Some));
                r
            },
        };
        assert(r == (exec_ins(s, ins) is Some));
        r
    }

    /// The constants, the frames and the stack, as the stepping debugger
    /// shows the machine.
    pub fn to_string(&self) -> (res: String)
        requires
            self.wf(),
            self@.sp + 5 <= STACK_SIZE,
        ensures
            res@ == "CONSTS\n"@ + consts_text(self@.constants, self@.constants.len() as int) + "\nFrames\n"@
                + frames_text(self@.frames, self@.fp as int, self@.frames.len() as int) + "\nSTACK\n"@
                + stack_text(self@.stack, self@.sp as int, self@.sp + 5),
    {
        proof {
            reveal_strlit("CONSTS\n");
            reveal_strlit("\nFrames\n");
        }
        let mut buf = String::new();
        buf.append("CONSTS\n");
        push_consts_text(&mut buf, &self.constants);
        buf.append("\nFrames\n");
        let ghost start = buf@;
        let ghost fs = self@.frames;
        let mut idx: usize = 0;
        while idx < self.frames.len()
            invariant
                self.wf(),
                idx <= self@.frames.len(),
                fs == self@.frames,
                buf@ == start + frames_text(fs, self@.fp as int, idx as int),
            decreases self@.frames.len() - idx,
        {
            proof {
                reveal_strlit("Current Frame:\n");
            }
            if idx == self.fp {
                buf.append("Current Frame:\n");
            }
            let text = self.frames[idx].to_string();
            buf.append(text.as_str());
            assert(fs[idx as int] == self.frames@[idx as int]@);
            assert(buf@ =~= start + frames_text(fs, self@.fp as int, idx + 1));
            idx = idx + 1;
        }
        let stack = self.stack_to_string();
        buf.append(stack.as_str());
        buf
    }

    pub fn stack_to_string(&self) -> (res: String)
        requires
            self.wf(),
            self@.sp + 5 <= STACK_SIZE,
        ensures
            res@ == "\nSTACK\n"@ + stack_text(self@.stack, self@.sp as int, self@.sp + 5),
    {
        proof {
            reveal_strlit("\nSTACK\n");
            reveal_strlit("-");
            reveal_strlit("0");
            reveal_strlit("+");
            reveal_strlit("\t\t");
            reveal_strlit("NONE");
            reveal_strlit("\t");
            reveal_strlit("\n");
        }
        let mut buf = String::new();
        buf.append("\nSTACK\n");
        let ghost start = buf@;
        let mut idx: usize = 0;
        while idx < self.sp + 5
            invariant
                self.wf(),
                self@.sp + 5 <= STACK_SIZE,
                idx <= self@.sp + 5,
                start == "\nSTACK\n"@,
                buf@ == start + stack_text(self@.stack, self@.sp as int, idx as int),
            decreases self@.sp + 5 - idx,
        {
            let ghost before = buf@;
            proof {
                reveal_strlit("-");
                reveal_strlit("0");
                reveal_strlit("+");
                reveal_strlit("\t\t");
                reveal_strlit("NONE");
                reveal_strlit("\t");
                reveal_strlit("\n");
            }
            if idx < self.sp {
                push_decimal_padded(&mut buf, idx, 6, "-");
            } else if idx == self.sp {
                push_decimal_padded(&mut buf, idx, 6, "0");
            } else {
                push_decimal_padded(&mut buf, idx, 6, "+");
            }
            buf.append("\t\t");
            assert(stack_view(self.stack@)[idx as int] == opt_view(self.stack@[idx as int]));
            push_slot_text(&mut buf, &self.stack[idx]);
            buf.append("\n");
            assert(buf@ =~= start + stack_text(self@.stack, self@.sp as int, idx + 1));
            idx = idx + 1;
        }
        buf
    }
}

} // verus!
