use vstd::prelude::*;

use super::vm::VM;
use super::vm_spec::cur;
use vstd::string::StrSliceExecFns;

verus! {

/// What the stepping debugger reads: a line, or the end of its input.
pub enum StepInput {
    Line(String),
    Eof,
}

/// What the stepping debugger does next: run one instruction, leave the
/// machine, or end the session.
#[derive(Debug, PartialEq, Eq, Structural)]
pub enum StepAction {
    Step,
    Leave,
    Quit,
}

/// The characters that Unicode counts as white space.
pub open spec fn is_white_space(c: char) -> bool {
    let n = c as u32;
    ||| 0x9 <= n <= 0xD
    ||| n == 0x20
    ||| n == 0x85
    ||| n == 0xA0
    ||| n == 0x1680
    ||| 0x2000 <= n <= 0x200A
    ||| n == 0x2028
    ||| n == 0x2029
    ||| n == 0x202F
    ||| n == 0x205F
    ||| n == 0x3000
}

/// The text without its trailing white space.
pub open spec fn trim_end(s: Seq<char>) -> Seq<char>
    decreases s.len(),
{
    if s.len() > 0 && is_white_space(s.last()) {
        trim_end(s.drop_last())
    } else {
        s
    }
}

/// The command that leaves the machine.
pub open spec fn exit_command() -> Seq<char> {
    seq!['e', 'x', 'i', 't']
}

/// Whether the machine has an instruction left to run.
pub open spec fn runnable(vm: VM) -> bool {
    cur(vm@).ic < cur(vm@).cf.fun.instructions.len()
}

/// What the debugger does on `input`: the end of input ends the session;
/// a line that reads `exit` once its trailing white space is cut, or a
/// machine with nothing left to run, leaves the machine; any other line
/// runs one instruction.
pub open spec fn step_action(vm: VM, input: StepInput) -> StepAction {
    match input {
        StepInput::Eof => StepAction::Quit,
        StepInput::Line(l) => if trim_end(l@) == exit_command() || !runnable(vm) {
            StepAction::Leave
        } else {
            StepAction::Step
        },
    }
}

fn white_space(c: char) -> (res: bool)
    ensures
        res == is_white_space(c),
{
    let n = c as u32;
    (0x9 <= n && n <= 0xD) || n == 0x20 || n == 0x85 || n == 0xA0 || n == 0x1680 || (0x2000 <= n && n <= 0x200A)
        || n == 0x2028 || n == 0x2029 || n == 0x202F || n == 0x205F || n == 0x3000
}

/// Whether `line` reads `exit` once its trailing white space is cut.
fn is_exit(line: &String) -> (res: bool)
    ensures
        res == (trim_end(line@) == exit_command()),
{
    let s = line.as_str();
    let mut n = s.unicode_len();
    assert(s@.subrange(0, n as int) =~= s@);
    while n > 0 && white_space(s.get_char(n - 1))
        invariant
            n <= s@.len(),
            s@ == line@,
            trim_end(line@) == trim_end(s@.subrange(0, n as int)),
        decreases n,
    {
        proof {
            let t = s@.subrange(0, n as int);
            assert(t.drop_last() =~= s@.subrange(0, n - 1));
        }
        n = n - 1;
    }
    proof {
        let t = s@.subrange(0, n as int);
        assert(trim_end(t) == t);
    }
    if n != 4 {
        return false;
    }
    let r = s.get_char(0) == 'e' && s.get_char(1) == 'x' && s.get_char(2) == 'i' && s.get_char(3) == 't';
    proof {
        let t = s@.subrange(0, 4);
        if r {
            assert(t =~= exit_command());
        } else {
            assert(t[0] != 'e' || t[1] != 'x' || t[2] != 'i' || t[3] != 't');
        }
    }
    r
}

/// The stepping debugger's decision on each input: the caller reads the
/// input and, for [`StepAction::Step`], runs one instruction and shows the
/// machine.
pub fn stepping_action(vm: &VM, input: &StepInput) -> (res: StepAction)
    requires
        vm.wf(),
    ensures
        res == step_action(*vm, *input),
{
    match input {
        StepInput::Eof => StepAction::Quit,
        StepInput::Line(line) => {
            if is_exit(line) {
                StepAction::Leave
            } else if !vm.is_runable() {
                StepAction::Leave
            } else {
                StepAction::Step
            }
        },
    }
}

} // verus!
