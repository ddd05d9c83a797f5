//! Tests of the bytecode container: the constant pool, emitting, and the
//! defensive decode primitives.

use sofia::instructions::Instructions;
use sofia::object::Object;
use sofia::opcode::Opcode;

#[test]
fn test_instructions_new() {
    let instr = Instructions::new();
    assert_eq!(instr.bytes.len(), 0);
    assert_eq!(instr.constants.len(), 0);
}

#[test]
fn test_add_constant() {
    let mut instr = Instructions::new();

    let idx1 = instr.add_constant(Object::Integer(42));
    let idx2 = instr.add_constant(Object::String("hello".to_string()));
    let idx3 = instr.add_constant(Object::Integer(100));

    assert_eq!(idx1, 0);
    assert_eq!(idx2, 1);
    assert_eq!(idx3, 2);
    assert_eq!(instr.constants.len(), 3);

    assert_eq!(instr.get_constant(0), Some(&Object::Integer(42)));
    assert_eq!(instr.get_constant(1), Some(&Object::String("hello".to_string())));
    assert_eq!(instr.get_constant(2), Some(&Object::Integer(100)));
    assert_eq!(instr.get_constant(3), None);
}

#[test]
fn test_emit_no_operands() {
    let mut instr = Instructions::new();

    instr.emit(Opcode::Add, &[]);
    instr.emit(Opcode::Sub, &[]);
    instr.emit(Opcode::Pop, &[]);

    assert_eq!(instr.bytes.len(), 3);
    assert_eq!(instr.bytes[0], Opcode::Add.tag());
    assert_eq!(instr.bytes[1], Opcode::Sub.tag());
    assert_eq!(instr.bytes[2], Opcode::Pop.tag());
}

#[test]
fn test_emit_with_operands() {
    let mut instr = Instructions::new();

    let pos1 = instr.emit(Opcode::Constant, &[255]);
    let pos2 = instr.emit(Opcode::Jump, &[512]);

    assert_eq!(pos1, 0);
    assert_eq!(pos2, 3);

    assert_eq!(instr.bytes[0], Opcode::Constant.tag());
    assert_eq!(instr.bytes[1], 0);
    assert_eq!(instr.bytes[2], 255);

    assert_eq!(instr.bytes[3], Opcode::Jump.tag());
    assert_eq!(instr.bytes[4], 2);
    assert_eq!(instr.bytes[5], 0);
}

#[test]
fn test_emit_with_1byte_operand() {
    let mut instr = Instructions::new();

    let pos = instr.emit(Opcode::GetLocal, &[5]);

    assert_eq!(pos, 0);
    assert_eq!(instr.bytes.len(), 2);
    assert_eq!(instr.bytes[0], Opcode::GetLocal.tag());
    assert_eq!(instr.bytes[1], 5);
}

#[test]
fn test_read_opcode() {
    let mut instr = Instructions::new();
    instr.emit(Opcode::Add, &[]);
    instr.emit(Opcode::Constant, &[10]);

    assert_eq!(Instructions::read_opcode(&instr.bytes, 0), Some(Opcode::Add));
    assert_eq!(Instructions::read_opcode(&instr.bytes, 1), Some(Opcode::Constant));
    assert_eq!(Instructions::read_opcode(&instr.bytes, 10), None);
}

#[test]
fn test_read_operands() {
    let mut instr = Instructions::new();
    instr.emit(Opcode::Constant, &[255]);

    let (operands, bytes_read) = Instructions::read_operands(Opcode::Constant, &instr.bytes, 1);

    assert_eq!(bytes_read, 2);
    assert_eq!(operands.len(), 1);
    assert_eq!(operands[0], 255);
}

#[test]
fn test_read_operands_1byte() {
    let mut instr = Instructions::new();
    instr.emit(Opcode::GetLocal, &[7]);

    let (operands, bytes_read) = Instructions::read_operands(Opcode::GetLocal, &instr.bytes, 1);

    assert_eq!(bytes_read, 1);
    assert_eq!(operands.len(), 1);
    assert_eq!(operands[0], 7);
}

#[test]
fn test_big_endian_encoding() {
    let mut instr = Instructions::new();

    instr.emit(Opcode::Jump, &[1024]);

    assert_eq!(instr.bytes[1], 4);
    assert_eq!(instr.bytes[2], 0);

    let (operands, _) = Instructions::read_operands(Opcode::Jump, &instr.bytes, 1);
    assert_eq!(operands[0], 1024);
}

#[test]
fn test_append() {
    let mut instr1 = Instructions::new();
    instr1.emit(Opcode::Add, &[]);
    instr1.emit(Opcode::Sub, &[]);

    let mut instr2 = Instructions::new();
    instr2.emit(Opcode::Mul, &[]);

    instr1.append(&instr2);

    assert_eq!(instr1.bytes.len(), 3);
    assert_eq!(instr1.bytes[0], Opcode::Add.tag());
    assert_eq!(instr1.bytes[1], Opcode::Sub.tag());
    assert_eq!(instr1.bytes[2], Opcode::Mul.tag());
}

#[test]
fn test_get_constants() {
    let mut instr = Instructions::new();
    instr.add_constant(Object::Integer(1));
    instr.add_constant(Object::Integer(2));
    instr.add_constant(Object::Integer(3));

    let constants = instr.get_constants();
    assert_eq!(constants.len(), 3);
    assert_eq!(constants[0], Object::Integer(1));
    assert_eq!(constants[1], Object::Integer(2));
    assert_eq!(constants[2], Object::Integer(3));
}

#[test]
fn test_default() {
    let instr = Instructions::default();
    assert_eq!(instr.bytes.len(), 0);
    assert_eq!(instr.constants.len(), 0);
}
