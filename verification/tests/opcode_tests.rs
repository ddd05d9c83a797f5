//! Tests of the instruction set: decoding, mnemonics, operand widths, and
//! the tag round trip.

use sofia::opcode::Opcode;

#[test]
fn test_opcode_from_byte() {
    assert_eq!(Opcode::from_byte(1), Some(Opcode::Constant));
    assert_eq!(Opcode::from_byte(2), Some(Opcode::Add));
    assert_eq!(Opcode::from_byte(9), Some(Opcode::Not));
    assert_eq!(Opcode::from_byte(12), Some(Opcode::Equal));
    assert_eq!(Opcode::from_byte(18), Some(Opcode::Jump));
    assert_eq!(Opcode::from_byte(37), Some(Opcode::True));
    assert_eq!(Opcode::from_byte(41), Some(Opcode::MapToAst));
    assert_eq!(Opcode::from_byte(42), None);
    assert_eq!(Opcode::from_byte(0), None);
}

#[test]
fn test_opcode_mnemonic() {
    assert_eq!(Opcode::Constant.mnemonic(), "CONSTANT");
    assert_eq!(Opcode::Add.mnemonic(), "ADD");
    assert_eq!(Opcode::Sub.mnemonic(), "SUB");
    assert_eq!(Opcode::Mul.mnemonic(), "MUL");
    assert_eq!(Opcode::Div.mnemonic(), "DIV");
    assert_eq!(Opcode::Equal.mnemonic(), "EQUAL");
    assert_eq!(Opcode::Jump.mnemonic(), "JUMP");
    assert_eq!(Opcode::Return.mnemonic(), "RETURN");
    assert_eq!(Opcode::Null.mnemonic(), "NULL");
}

#[test]
fn test_opcode_operand_widths() {
    assert_eq!(Opcode::Constant.operand_widths(), vec![2]);
    assert_eq!(Opcode::Jump.operand_widths(), vec![2]);
    assert_eq!(Opcode::JumpIfFalse.operand_widths(), vec![2]);
    assert_eq!(Opcode::GetGlobal.operand_widths(), vec![2]);
    assert_eq!(Opcode::SetGlobal.operand_widths(), vec![2]);
    assert_eq!(Opcode::Array.operand_widths(), vec![2]);
    assert_eq!(Opcode::Hash.operand_widths(), vec![2]);

    assert_eq!(Opcode::GetLocal.operand_widths(), vec![1]);
    assert_eq!(Opcode::SetLocal.operand_widths(), vec![1]);
    assert_eq!(Opcode::Call.operand_widths(), vec![1]);

    assert_eq!(Opcode::Add.operand_widths(), vec![]);
    assert_eq!(Opcode::Sub.operand_widths(), vec![]);
    assert_eq!(Opcode::Pop.operand_widths(), vec![]);
    assert_eq!(Opcode::True.operand_widths(), vec![]);
    assert_eq!(Opcode::False.operand_widths(), vec![]);
    assert_eq!(Opcode::Null.operand_widths(), vec![]);
}

#[test]
fn test_all_opcodes_roundtrip() {
    for byte in 1..=41 {
        let opcode = Opcode::from_byte(byte);
        assert!(opcode.is_some(), "Opcode with byte {} should exist", byte);
        let opcode = opcode.unwrap();
        assert_eq!(opcode.tag(), byte, "Opcode byte should be {}", byte);
    }
}

#[test]
fn test_opcode_equality() {
    assert_eq!(Opcode::Add, Opcode::Add);
    assert_ne!(Opcode::Add, Opcode::Sub);
    assert_ne!(Opcode::Equal, Opcode::NotEqual);
}
