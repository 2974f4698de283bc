use vstd::prelude::*;

use crate::utils::{decimal, push_decimal};

verus! {

#[derive(Debug, Clone, Copy, PartialEq, Eq, Structural)]
pub enum OP {
    PUSH,
    POP,
    CONST { idx: usize },
    ADD,
    SUB,
    CGT,
    CLT,
    CEQ,
    CNEQ,
    JMP,
    JEQ { idx: usize },
    JNEQ { idx: usize },
}

/// The text of an operation: its name, and for one with an operand two
/// tabs and the operand in decimal.
pub open spec fn op_text(op: OP) -> Seq<char> {
    match op {
        OP::PUSH => "PUSH"@,
        OP::POP => "POP"@,
        OP::CONST { idx } => "CONST\t\t"@ + decimal(idx as nat),
        OP::ADD => "ADD"@,
        OP::SUB => "SUB"@,
        OP::CGT => "CGT"@,
        OP::CLT => "CLT"@,
        OP::CEQ => "CEQ"@,
        OP::CNEQ => "CNEQ"@,
        OP::JMP => "JMP"@,
        OP::JEQ { idx } => "JEQ\t\t"@ + decimal(idx as nat),
        OP::JNEQ { idx } => "JNEQ\t\t"@ + decimal(idx as nat),
    }
}

impl OP {
    pub fn to_string(&self) -> (res: String)
        ensures
            res@ == op_text(*self),
    {
        let mut buf = String::new();
        match self {
            OP::PUSH => {
                proof {
                    reveal_strlit("PUSH");
                }
                buf.append("PUSH")
            },
            OP::POP => {
                proof {
                    reveal_strlit("POP");
                }
                buf.append("POP")
            },
            OP::CONST { idx } => {
                proof {
                    reveal_strlit("CONST\t\t");
                }
                buf.append("CONST\t\t");
                push_decimal(&mut buf, *idx);
            },
            OP::ADD => {
                proof {
                    reveal_strlit("ADD");
                }
                buf.append("ADD")
            },
            OP::SUB => {
                proof {
                    reveal_strlit("SUB");
                }
                buf.append("SUB")
            },
            OP::CGT => {
                proof {
                    reveal_strlit("CGT");
                }
                buf.append("CGT")
            },
            OP::CLT => {
                proof {
                    reveal_strlit("CLT");
                }
                buf.append("CLT")
            },
            OP::CEQ => {
                proof {
                    reveal_strlit("CEQ");
                }
                buf.append("CEQ")
            },
            OP::CNEQ => {
                proof {
                    reveal_strlit("CNEQ");
                }
                buf.append("CNEQ")
            },
            OP::JMP => {
                proof {
                    reveal_strlit("JMP");
                }
                buf.append("JMP")
            },
            OP::JEQ { idx } => {
                proof {
                    reveal_strlit("JEQ\t\t");
                }
                buf.append("JEQ\t\t");
                push_decimal(&mut buf, *idx);
            },
            OP::JNEQ { idx } => {
                proof {
                    reveal_strlit("JNEQ\t\t");
                }
                buf.append("JNEQ\t\t");
                push_decimal(&mut buf, *idx);
            },
        }
        buf
    }
}

} // verus!
