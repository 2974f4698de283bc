use vstd::prelude::*;

verus! {

/// Kind of a lexical token.
#[allow(non_camel_case_types)]
#[derive(Debug, Clone, Copy, PartialEq, Eq, Structural)]
pub enum Kind {
    Illegal,
    EOF,
    Ident,
    Int,
    String,
    Assign,
    Plus,
    Minus,
    Bang,
    Product,
    Divide,
    Mod,
    LT,
    LT_OR_EQ,
    GT,
    GT_OR_EQ,
    EQ,
    NOT_EQ,
    And,
    Or,
    Bit_And,
    Bit_Or,
    Comma,
    Semicolon,
    LParen,
    RParen,
    LBrace,
    RBrace,
    LBracket,
    RBracket,
    Function,
    Let,
    True,
    False,
    If,
    Else,
    Return,
}

/// A lexical token, as far as the compiler reads it.
#[derive(Debug, Clone, Copy, PartialEq, Eq, Structural)]
pub struct Token {
    pub kind: Kind,
}

} // verus!
