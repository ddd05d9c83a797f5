//! A bytecode toolchain for a small scripting language: a lexer and parser
//! that build a syntax tree, a compiler that lowers the tree into a binary
//! instruction encoding with a constant pool, and a stack-based virtual
//! machine that executes that encoding.

pub mod ast;
pub mod compiler;
pub mod disassembler;
pub mod instructions;
pub mod lexer;
pub mod object;
pub mod opcode;
pub mod parser;
pub mod strutil;
pub mod token;
pub mod vm;
