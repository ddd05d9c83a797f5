//! The instruction set: the closed catalogue of opcodes, each with a numeric
//! tag, a mnemonic, and a fixed list of operand widths.
//!
//! Tags, mnemonics and width lists stand in a total bijection for valid tags;
//! decoding any byte outside the valid range yields `None`, never a default.

use vstd::prelude::*;

verus! {

/// One operation of the virtual machine.
#[derive(Debug, PartialEq, Eq, Structural, Clone, Copy, Hash)]
pub enum Opcode {
    Constant,
    Add,
    Sub,
    Mul,
    Div,
    Mod,
    Pow,
    Neg,
    Not,
    And,
    Or,
    Equal,
    NotEqual,
    GreaterThan,
    LessThan,
    GreaterThanOrEqual,
    LessThanOrEqual,
    Jump,
    JumpIfFalse,
    JumpIfTrue,
    Call,
    Return,
    GetGlobal,
    SetGlobal,
    GetLocal,
    SetLocal,
    Array,
    Hash,
    Index,
    Class,
    GetProperty,
    SetProperty,
    New,
    This,
    Super,
    Pop,
    True,
    False,
    Null,
    NoOp,
    MapToAst,
}

/// The numeric tag that encodes an opcode.
pub open spec fn tag_of(op: Opcode) -> u8 {
    match op {
        Opcode::Constant => 1,
        Opcode::Add => 2,
        Opcode::Sub => 3,
        Opcode::Mul => 4,
        Opcode::Div => 5,
        Opcode::Mod => 6,
        Opcode::Pow => 7,
        Opcode::Neg => 8,
        Opcode::Not => 9,
        Opcode::And => 10,
        Opcode::Or => 11,
        Opcode::Equal => 12,
        Opcode::NotEqual => 13,
        Opcode::GreaterThan => 14,
        Opcode::LessThan => 15,
        Opcode::GreaterThanOrEqual => 16,
        Opcode::LessThanOrEqual => 17,
        Opcode::Jump => 18,
        Opcode::JumpIfFalse => 19,
        Opcode::JumpIfTrue => 20,
        Opcode::Call => 21,
        Opcode::Return => 22,
        Opcode::GetGlobal => 23,
        Opcode::SetGlobal => 24,
        Opcode::GetLocal => 25,
        Opcode::SetLocal => 26,
        Opcode::Array => 27,
        Opcode::Hash => 28,
        Opcode::Index => 29,
        Opcode::Class => 30,
        Opcode::GetProperty => 31,
        Opcode::SetProperty => 32,
        Opcode::New => 33,
        Opcode::This => 34,
        Opcode::Super => 35,
        Opcode::Pop => 36,
        Opcode::True => 37,
        Opcode::False => 38,
        Opcode::Null => 39,
        Opcode::NoOp => 40,
        Opcode::MapToAst => 41,
    }
}

/// The opcode a byte decodes to, if any: the inverse of [`tag_of`].
pub open spec fn opcode_of_byte(b: u8) -> Option<Opcode> {
    if b == 1 {
        Some(Opcode::Constant)
    } else if b == 2 {
        Some(Opcode::Add)
    } else if b == 3 {
        Some(Opcode::Sub)
    } else if b == 4 {
        Some(Opcode::Mul)
    } else if b == 5 {
        Some(Opcode::Div)
    } else if b == 6 {
        Some(Opcode::Mod)
    } else if b == 7 {
        Some(Opcode::Pow)
    } else if b == 8 {
        Some(Opcode::Neg)
    } else if b == 9 {
        Some(Opcode::Not)
    } else if b == 10 {
        Some(Opcode::And)
    } else if b == 11 {
        Some(Opcode::Or)
    } else if b == 12 {
        Some(Opcode::Equal)
    } else if b == 13 {
        Some(Opcode::NotEqual)
    } else if b == 14 {
        Some(Opcode::GreaterThan)
    } else if b == 15 {
        Some(Opcode::LessThan)
    } else if b == 16 {
        Some(Opcode::GreaterThanOrEqual)
    } else if b == 17 {
        Some(Opcode::LessThanOrEqual)
    } else if b == 18 {
        Some(Opcode::Jump)
    } else if b == 19 {
        Some(Opcode::JumpIfFalse)
    } else if b == 20 {
        Some(Opcode::JumpIfTrue)
    } else if b == 21 {
        Some(Opcode::Call)
    } else if b == 22 {
        Some(Opcode::Return)
    } else if b == 23 {
        Some(Opcode::GetGlobal)
    } else if b == 24 {
        Some(Opcode::SetGlobal)
    } else if b == 25 {
        Some(Opcode::GetLocal)
    } else if b == 26 {
        Some(Opcode::SetLocal)
    } else if b == 27 {
        Some(Opcode::Array)
    } else if b == 28 {
        Some(Opcode::Hash)
    } else if b == 29 {
        Some(Opcode::Index)
    } else if b == 30 {
        Some(Opcode::Class)
    } else if b == 31 {
        Some(Opcode::GetProperty)
    } else if b == 32 {
        Some(Opcode::SetProperty)
    } else if b == 33 {
        Some(Opcode::New)
    } else if b == 34 {
        Some(Opcode::This)
    } else if b == 35 {
        Some(Opcode::Super)
    } else if b == 36 {
        Some(Opcode::Pop)
    } else if b == 37 {
        Some(Opcode::True)
    } else if b == 38 {
        Some(Opcode::False)
    } else if b == 39 {
        Some(Opcode::Null)
    } else if b == 40 {
        Some(Opcode::NoOp)
    } else if b == 41 {
        Some(Opcode::MapToAst)
    } else {
        None
    }
}

/// The fixed operand widths an opcode declares: zero, one, or two operands,
/// each one or two bytes wide.
pub open spec fn widths_of(op: Opcode) -> Seq<u8> {
    match op {
        Opcode::Constant => seq![2],
        Opcode::Add => seq![],
        Opcode::Sub => seq![],
        Opcode::Mul => seq![],
        Opcode::Div => seq![],
        Opcode::Mod => seq![],
        Opcode::Pow => seq![],
        Opcode::Neg => seq![],
        Opcode::Not => seq![],
        Opcode::And => seq![],
        Opcode::Or => seq![],
        Opcode::Equal => seq![],
        Opcode::NotEqual => seq![],
        Opcode::GreaterThan => seq![],
        Opcode::LessThan => seq![],
        Opcode::GreaterThanOrEqual => seq![],
        Opcode::LessThanOrEqual => seq![],
        Opcode::Jump => seq![2],
        Opcode::JumpIfFalse => seq![2],
        Opcode::JumpIfTrue => seq![2],
        Opcode::Call => seq![1],
        Opcode::Return => seq![],
        Opcode::GetGlobal => seq![2],
        Opcode::SetGlobal => seq![2],
        Opcode::GetLocal => seq![1],
        Opcode::SetLocal => seq![1],
        Opcode::Array => seq![2],
        Opcode::Hash => seq![2],
        Opcode::Index => seq![],
        Opcode::Class => seq![2],
        Opcode::GetProperty => seq![2],
        Opcode::SetProperty => seq![2],
        Opcode::New => seq![1],
        Opcode::This => seq![],
        Opcode::Super => seq![],
        Opcode::Pop => seq![],
        Opcode::True => seq![],
        Opcode::False => seq![],
        Opcode::Null => seq![],
        Opcode::NoOp => seq![],
        Opcode::MapToAst => seq![2],
    }
}

/// The display name of an opcode, used only by the disassembler.
pub open spec fn mnemonic_of(op: Opcode) -> Seq<char> {
    match op {
        Opcode::Constant => "CONSTANT"@,
        Opcode::Add => "ADD"@,
        Opcode::Sub => "SUB"@,
        Opcode::Mul => "MUL"@,
        Opcode::Div => "DIV"@,
        Opcode::Mod => "MOD"@,
        Opcode::Pow => "POW"@,
        Opcode::Neg => "NEG"@,
        Opcode::Not => "NOT"@,
        Opcode::And => "AND"@,
        Opcode::Or => "OR"@,
        Opcode::Equal => "EQUAL"@,
        Opcode::NotEqual => "NOT_EQUAL"@,
        Opcode::GreaterThan => "GREATER_THAN"@,
        Opcode::LessThan => "LESS_THAN"@,
        Opcode::GreaterThanOrEqual => "GREATER_THAN_OR_EQUAL"@,
        Opcode::LessThanOrEqual => "LESS_THAN_OR_EQUAL"@,
        Opcode::Jump => "JUMP"@,
        Opcode::JumpIfFalse => "JUMP_IF_FALSE"@,
        Opcode::JumpIfTrue => "JUMP_IF_TRUE"@,
        Opcode::Call => "CALL"@,
        Opcode::Return => "RETURN"@,
        Opcode::GetGlobal => "GET_GLOBAL"@,
        Opcode::SetGlobal => "SET_GLOBAL"@,
        Opcode::GetLocal => "GET_LOCAL"@,
        Opcode::SetLocal => "SET_LOCAL"@,
        Opcode::Array => "ARRAY"@,
        Opcode::Hash => "HASH"@,
        Opcode::Index => "INDEX"@,
        Opcode::Class => "CLASS"@,
        Opcode::GetProperty => "GET_PROPERTY"@,
        Opcode::SetProperty => "SET_PROPERTY"@,
        Opcode::New => "NEW"@,
        Opcode::This => "THIS"@,
        Opcode::Super => "SUPER"@,
        Opcode::Pop => "POP"@,
        Opcode::True => "TRUE"@,
        Opcode::False => "FALSE"@,
        Opcode::Null => "NULL"@,
        Opcode::NoOp => "NO_OP"@,
        Opcode::MapToAst => "MAP_TO_AST"@,
    }
}

impl Opcode {
    /// The numeric tag of this opcode, the byte that encodes it.
    pub fn tag(&self) -> (r: u8)
        ensures
            r == tag_of(*self),
    {
        match self {
            Opcode::Constant => 1,
            Opcode::Add => 2,
            Opcode::Sub => 3,
            Opcode::Mul => 4,
            Opcode::Div => 5,
            Opcode::Mod => 6,
            Opcode::Pow => 7,
            Opcode::Neg => 8,
            Opcode::Not => 9,
            Opcode::And => 10,
            Opcode::Or => 11,
            Opcode::Equal => 12,
            Opcode::NotEqual => 13,
            Opcode::GreaterThan => 14,
            Opcode::LessThan => 15,
            Opcode::GreaterThanOrEqual => 16,
            Opcode::LessThanOrEqual => 17,
            Opcode::Jump => 18,
            Opcode::JumpIfFalse => 19,
            Opcode::JumpIfTrue => 20,
            Opcode::Call => 21,
            Opcode::Return => 22,
            Opcode::GetGlobal => 23,
            Opcode::SetGlobal => 24,
            Opcode::GetLocal => 25,
            Opcode::SetLocal => 26,
            Opcode::Array => 27,
            Opcode::Hash => 28,
            Opcode::Index => 29,
            Opcode::Class => 30,
            Opcode::GetProperty => 31,
            Opcode::SetProperty => 32,
            Opcode::New => 33,
            Opcode::This => 34,
            Opcode::Super => 35,
            Opcode::Pop => 36,
            Opcode::True => 37,
            Opcode::False => 38,
            Opcode::Null => 39,
            Opcode::NoOp => 40,
            Opcode::MapToAst => 41,
        }
    }

    /// The mnemonic display name of this opcode. It is used only for
    /// disassembly and is never part of the binary encoding.
    pub fn mnemonic(&self) -> (r: &'static str)
        ensures
            r@ == mnemonic_of(*self),
    {
        match self {
            Opcode::Constant => "CONSTANT",
            Opcode::Add => "ADD",
            Opcode::Sub => "SUB",
            Opcode::Mul => "MUL",
            Opcode::Div => "DIV",
            Opcode::Mod => "MOD",
            Opcode::Pow => "POW",
            Opcode::Neg => "NEG",
            Opcode::Not => "NOT",
            Opcode::And => "AND",
            Opcode::Or => "OR",
            Opcode::Equal => "EQUAL",
            Opcode::NotEqual => "NOT_EQUAL",
            Opcode::GreaterThan => "GREATER_THAN",
            Opcode::LessThan => "LESS_THAN",
            Opcode::GreaterThanOrEqual => "GREATER_THAN_OR_EQUAL",
            Opcode::LessThanOrEqual => "LESS_THAN_OR_EQUAL",
            Opcode::Jump => "JUMP",
            Opcode::JumpIfFalse => "JUMP_IF_FALSE",
            Opcode::JumpIfTrue => "JUMP_IF_TRUE",
            Opcode::Call => "CALL",
            Opcode::Return => "RETURN",
            Opcode::GetGlobal => "GET_GLOBAL",
            Opcode::SetGlobal => "SET_GLOBAL",
            Opcode::GetLocal => "GET_LOCAL",
            Opcode::SetLocal => "SET_LOCAL",
            Opcode::Array => "ARRAY",
            Opcode::Hash => "HASH",
            Opcode::Index => "INDEX",
            Opcode::Class => "CLASS",
            Opcode::GetProperty => "GET_PROPERTY",
            Opcode::SetProperty => "SET_PROPERTY",
            Opcode::New => "NEW",
            Opcode::This => "THIS",
            Opcode::Super => "SUPER",
            Opcode::Pop => "POP",
            Opcode::True => "TRUE",
            Opcode::False => "FALSE",
            Opcode::Null => "NULL",
            Opcode::NoOp => "NO_OP",
            Opcode::MapToAst => "MAP_TO_AST",
        }
    }

    /// The operand widths this opcode declares, consumed after the tag byte.
    pub fn operand_widths(&self) -> (r: Vec<u8>)
        ensures
            r@ == widths_of(*self),
    {
        let mut r: Vec<u8> = Vec::new();
        match self {
            Opcode::Constant
            | Opcode::Jump
            | Opcode::JumpIfFalse
            | Opcode::JumpIfTrue
            | Opcode::GetGlobal
            | Opcode::SetGlobal
            | Opcode::Array
            | Opcode::Hash
            | Opcode::Class
            | Opcode::GetProperty
            | Opcode::SetProperty
            | Opcode::MapToAst => {
                r.push(2);
            },
            Opcode::Call | Opcode::GetLocal | Opcode::SetLocal | Opcode::New => {
                r.push(1);
            },
            _ => {},
        }
        proof {
            assert(r@ =~= widths_of(*self));
        }
        r
    }

    /// Decodes a byte into an opcode; `None` for any byte outside the valid
    /// range of tags.
    pub fn from_byte(byte: u8) -> (r: Option<Opcode>)
        ensures
            r == opcode_of_byte(byte),
    {
        match byte {
            1 => Some(Opcode::Constant),
            2 => Some(Opcode::Add),
            3 => Some(Opcode::Sub),
            4 => Some(Opcode::Mul),
            5 => Some(Opcode::Div),
            6 => Some(Opcode::Mod),
            7 => Some(Opcode::Pow),
            8 => Some(Opcode::Neg),
            9 => Some(Opcode::Not),
            10 => Some(Opcode::And),
            11 => Some(Opcode::Or),
            12 => Some(Opcode::Equal),
            13 => Some(Opcode::NotEqual),
            14 => Some(Opcode::GreaterThan),
            15 => Some(Opcode::LessThan),
            16 => Some(Opcode::GreaterThanOrEqual),
            17 => Some(Opcode::LessThanOrEqual),
            18 => Some(Opcode::Jump),
            19 => Some(Opcode::JumpIfFalse),
            20 => Some(Opcode::JumpIfTrue),
            21 => Some(Opcode::Call),
            22 => Some(Opcode::Return),
            23 => Some(Opcode::GetGlobal),
            24 => Some(Opcode::SetGlobal),
            25 => Some(Opcode::GetLocal),
            26 => Some(Opcode::SetLocal),
            27 => Some(Opcode::Array),
            28 => Some(Opcode::Hash),
            29 => Some(Opcode::Index),
            30 => Some(Opcode::Class),
            31 => Some(Opcode::GetProperty),
            32 => Some(Opcode::SetProperty),
            33 => Some(Opcode::New),
            34 => Some(Opcode::This),
            35 => Some(Opcode::Super),
            36 => Some(Opcode::Pop),
            37 => Some(Opcode::True),
            38 => Some(Opcode::False),
            39 => Some(Opcode::Null),
            40 => Some(Opcode::NoOp),
            41 => Some(Opcode::MapToAst),
            _ => None,
        }
    }
}

/// Tags and opcodes are in bijection: every opcode's tag decodes back to that
/// opcode, a decoded byte is the tag of what it decoded to, and exactly the
/// bytes from the lowest to the highest tag decode at all.
pub proof fn lemma_opcode_tag_bijection()
    ensures
        forall|op: Opcode| opcode_of_byte(#[trigger] tag_of(op)) == Some(op),
        forall|b: u8| #[trigger] opcode_of_byte(b) is Some ==> tag_of(opcode_of_byte(b)->Some_0) == b,
        forall|b: u8| #[trigger] opcode_of_byte(b) is Some <==> 1 <= b <= 41,
{
}

} // verus!
