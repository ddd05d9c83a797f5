//! Tests of the virtual machine: one hand-assembled program per behaviour.

use sofia::instructions::Instructions;
use sofia::object::Object;
use sofia::opcode::Opcode;
use sofia::vm::{STACK_SIZE, VM};

#[test]
fn test_vm_constant() {
    let mut instr = Instructions::new();
    instr.constants.push(Object::Integer(10));
    instr.bytes = vec![Opcode::Constant.tag(), 0, 0];
    let mut vm = VM::new(instr);
    let result = vm.run();
    assert!(result.is_ok());
    assert_eq!(result.unwrap(), Object::Integer(10));
}

#[test]
fn test_vm_add() {
    let mut instr = Instructions::new();
    instr.constants.push(Object::Integer(5));
    instr.constants.push(Object::Integer(10));
    instr.bytes = vec![
        Opcode::Constant.tag(),
        0,
        0,
        Opcode::Constant.tag(),
        0,
        1,
        Opcode::Add.tag(),
    ];
    let mut vm = VM::new(instr);
    let result = vm.run();
    assert!(result.is_ok());
    assert_eq!(result.unwrap(), Object::Integer(15));
}

#[test]
fn test_vm_sub() {
    let mut instr = Instructions::new();
    instr.constants.push(Object::Integer(20));
    instr.constants.push(Object::Integer(7));
    instr.bytes = vec![
        Opcode::Constant.tag(),
        0,
        0,
        Opcode::Constant.tag(),
        0,
        1,
        Opcode::Sub.tag(),
    ];
    let mut vm = VM::new(instr);
    let result = vm.run();
    assert!(result.is_ok());
    assert_eq!(result.unwrap(), Object::Integer(13));
}

#[test]
fn test_vm_mul() {
    let mut instr = Instructions::new();
    instr.constants.push(Object::Integer(4));
    instr.constants.push(Object::Integer(5));
    instr.bytes = vec![
        Opcode::Constant.tag(),
        0,
        0,
        Opcode::Constant.tag(),
        0,
        1,
        Opcode::Mul.tag(),
    ];
    let mut vm = VM::new(instr);
    let result = vm.run();
    assert!(result.is_ok());
    assert_eq!(result.unwrap(), Object::Integer(20));
}

#[test]
fn test_vm_div() {
    let mut instr = Instructions::new();
    instr.constants.push(Object::Integer(20));
    instr.constants.push(Object::Integer(4));
    instr.bytes = vec![
        Opcode::Constant.tag(),
        0,
        0,
        Opcode::Constant.tag(),
        0,
        1,
        Opcode::Div.tag(),
    ];
    let mut vm = VM::new(instr);
    let result = vm.run();
    assert!(result.is_ok());
    assert_eq!(result.unwrap(), Object::Integer(5));
}

#[test]
fn test_vm_div_by_zero() {
    let mut instr = Instructions::new();
    instr.constants.push(Object::Integer(10));
    instr.constants.push(Object::Integer(0));
    instr.bytes = vec![
        Opcode::Constant.tag(),
        0,
        0,
        Opcode::Constant.tag(),
        0,
        1,
        Opcode::Div.tag(),
    ];
    let mut vm = VM::new(instr);
    let result = vm.run();
    assert!(result.is_err());
    assert!(result.unwrap_err().contains("ноль"));
}

#[test]
fn test_vm_mod() {
    let mut instr = Instructions::new();
    instr.constants.push(Object::Integer(17));
    instr.constants.push(Object::Integer(5));
    instr.bytes = vec![
        Opcode::Constant.tag(),
        0,
        0,
        Opcode::Constant.tag(),
        0,
        1,
        Opcode::Mod.tag(),
    ];
    let mut vm = VM::new(instr);
    let result = vm.run();
    assert!(result.is_ok());
    assert_eq!(result.unwrap(), Object::Integer(2));
}

#[test]
fn test_vm_pow() {
    let mut instr = Instructions::new();
    instr.constants.push(Object::Integer(2));
    instr.constants.push(Object::Integer(8));
    instr.bytes = vec![
        Opcode::Constant.tag(),
        0,
        0,
        Opcode::Constant.tag(),
        0,
        1,
        Opcode::Pow.tag(),
    ];
    let mut vm = VM::new(instr);
    let result = vm.run();
    assert!(result.is_ok());
    assert_eq!(result.unwrap(), Object::Integer(256));
}

#[test]
fn test_vm_neg() {
    let mut instr = Instructions::new();
    instr.constants.push(Object::Integer(42));
    instr.bytes = vec![Opcode::Constant.tag(), 0, 0, Opcode::Neg.tag()];
    let mut vm = VM::new(instr);
    let result = vm.run();
    assert!(result.is_ok());
    assert_eq!(result.unwrap(), Object::Integer(-42));
}

#[test]
fn test_vm_not_true() {
    let mut instr = Instructions::new();
    instr.bytes = vec![Opcode::True.tag(), Opcode::Not.tag()];
    let mut vm = VM::new(instr);
    let result = vm.run();
    assert!(result.is_ok());
    assert_eq!(result.unwrap(), Object::Boolean(false));
}

#[test]
fn test_vm_not_false() {
    let mut instr = Instructions::new();
    instr.bytes = vec![Opcode::False.tag(), Opcode::Not.tag()];
    let mut vm = VM::new(instr);
    let result = vm.run();
    assert!(result.is_ok());
    assert_eq!(result.unwrap(), Object::Boolean(true));
}

#[test]
fn test_vm_and_true_true() {
    let mut instr = Instructions::new();
    instr.bytes = vec![Opcode::True.tag(), Opcode::True.tag(), Opcode::And.tag()];
    let mut vm = VM::new(instr);
    let result = vm.run();
    assert!(result.is_ok());
    assert_eq!(result.unwrap(), Object::Boolean(true));
}

#[test]
fn test_vm_and_true_false() {
    let mut instr = Instructions::new();
    instr.bytes = vec![Opcode::True.tag(), Opcode::False.tag(), Opcode::And.tag()];
    let mut vm = VM::new(instr);
    let result = vm.run();
    assert!(result.is_ok());
    assert_eq!(result.unwrap(), Object::Boolean(false));
}

#[test]
fn test_vm_or_false_false() {
    let mut instr = Instructions::new();
    instr.bytes = vec![Opcode::False.tag(), Opcode::False.tag(), Opcode::Or.tag()];
    let mut vm = VM::new(instr);
    let result = vm.run();
    assert!(result.is_ok());
    assert_eq!(result.unwrap(), Object::Boolean(false));
}

#[test]
fn test_vm_or_true_false() {
    let mut instr = Instructions::new();
    instr.bytes = vec![Opcode::True.tag(), Opcode::False.tag(), Opcode::Or.tag()];
    let mut vm = VM::new(instr);
    let result = vm.run();
    assert!(result.is_ok());
    assert_eq!(result.unwrap(), Object::Boolean(true));
}

#[test]
fn test_vm_equal_integers() {
    let mut instr = Instructions::new();
    instr.constants.push(Object::Integer(5));
    instr.constants.push(Object::Integer(5));
    instr.bytes = vec![
        Opcode::Constant.tag(),
        0,
        0,
        Opcode::Constant.tag(),
        0,
        1,
        Opcode::Equal.tag(),
    ];
    let mut vm = VM::new(instr);
    let result = vm.run();
    assert!(result.is_ok());
    assert_eq!(result.unwrap(), Object::Boolean(true));
}

#[test]
fn test_vm_not_equal_integers() {
    let mut instr = Instructions::new();
    instr.constants.push(Object::Integer(5));
    instr.constants.push(Object::Integer(7));
    instr.bytes = vec![
        Opcode::Constant.tag(),
        0,
        0,
        Opcode::Constant.tag(),
        0,
        1,
        Opcode::NotEqual.tag(),
    ];
    let mut vm = VM::new(instr);
    let result = vm.run();
    assert!(result.is_ok());
    assert_eq!(result.unwrap(), Object::Boolean(true));
}

#[test]
fn test_vm_greater_than() {
    let mut instr = Instructions::new();
    instr.constants.push(Object::Integer(10));
    instr.constants.push(Object::Integer(5));
    instr.bytes = vec![
        Opcode::Constant.tag(),
        0,
        0,
        Opcode::Constant.tag(),
        0,
        1,
        Opcode::GreaterThan.tag(),
    ];
    let mut vm = VM::new(instr);
    let result = vm.run();
    assert!(result.is_ok());
    assert_eq!(result.unwrap(), Object::Boolean(true));
}

#[test]
fn test_vm_less_than() {
    let mut instr = Instructions::new();
    instr.constants.push(Object::Integer(5));
    instr.constants.push(Object::Integer(10));
    instr.bytes = vec![
        Opcode::Constant.tag(),
        0,
        0,
        Opcode::Constant.tag(),
        0,
        1,
        Opcode::LessThan.tag(),
    ];
    let mut vm = VM::new(instr);
    let result = vm.run();
    assert!(result.is_ok());
    assert_eq!(result.unwrap(), Object::Boolean(true));
}

#[test]
fn test_vm_greater_than_or_equal() {
    let mut instr = Instructions::new();
    instr.constants.push(Object::Integer(10));
    instr.constants.push(Object::Integer(10));
    instr.bytes = vec![
        Opcode::Constant.tag(),
        0,
        0,
        Opcode::Constant.tag(),
        0,
        1,
        Opcode::GreaterThanOrEqual.tag(),
    ];
    let mut vm = VM::new(instr);
    let result = vm.run();
    assert!(result.is_ok());
    assert_eq!(result.unwrap(), Object::Boolean(true));
}

#[test]
fn test_vm_less_than_or_equal() {
    let mut instr = Instructions::new();
    instr.constants.push(Object::Integer(5));
    instr.constants.push(Object::Integer(10));
    instr.bytes = vec![
        Opcode::Constant.tag(),
        0,
        0,
        Opcode::Constant.tag(),
        0,
        1,
        Opcode::LessThanOrEqual.tag(),
    ];
    let mut vm = VM::new(instr);
    let result = vm.run();
    assert!(result.is_ok());
    assert_eq!(result.unwrap(), Object::Boolean(true));
}

#[test]
fn test_vm_pop() {
    let mut instr = Instructions::new();
    instr.constants.push(Object::Integer(10));
    instr.bytes = vec![Opcode::Constant.tag(), 0, 0, Opcode::Pop.tag()];
    let mut vm = VM::new(instr);
    let result = vm.run();
    assert!(result.is_ok());
    assert_eq!(result.unwrap(), Object::Null);
}

#[test]
fn test_vm_multiple_operations() {
    let mut instr = Instructions::new();
    instr.constants.push(Object::Integer(5));
    instr.constants.push(Object::Integer(10));
    instr.constants.push(Object::Integer(3));
    instr.bytes = vec![
        Opcode::Constant.tag(),
        0,
        0,
        Opcode::Constant.tag(),
        0,
        1,
        Opcode::Add.tag(),
        Opcode::Constant.tag(),
        0,
        2,
        Opcode::Mul.tag(),
    ];
    let mut vm = VM::new(instr);
    let result = vm.run();
    assert!(result.is_ok());
    assert_eq!(result.unwrap(), Object::Integer(45));
}

#[test]
fn test_vm_null() {
    let mut instr = Instructions::new();
    instr.bytes = vec![Opcode::Null.tag()];
    let mut vm = VM::new(instr);
    let result = vm.run();
    assert!(result.is_ok());
    assert_eq!(result.unwrap(), Object::Null);
}

#[test]
fn test_vm_true() {
    let mut instr = Instructions::new();
    instr.bytes = vec![Opcode::True.tag()];
    let mut vm = VM::new(instr);
    let result = vm.run();
    assert!(result.is_ok());
    assert_eq!(result.unwrap(), Object::Boolean(true));
}

#[test]
fn test_vm_false() {
    let mut instr = Instructions::new();
    instr.bytes = vec![Opcode::False.tag()];
    let mut vm = VM::new(instr);
    let result = vm.run();
    assert!(result.is_ok());
    assert_eq!(result.unwrap(), Object::Boolean(false));
}

#[test]
fn test_vm_stack_overflow() {
    let mut instr = Instructions::new();
    instr.constants.push(Object::Integer(1));
    let mut bytes = vec![];
    for _ in 0..(STACK_SIZE + 10) {
        bytes.push(Opcode::Constant.tag());
        bytes.push(0);
        bytes.push(0);
    }
    instr.bytes = bytes;
    let mut vm = VM::new(instr);
    let result = vm.run();
    assert!(result.is_err());
    assert!(result.unwrap_err().contains("Переполнение"));
}

#[test]
fn test_vm_stack_underflow() {
    let mut instr = Instructions::new();
    instr.bytes = vec![Opcode::Pop.tag()];
    let mut vm = VM::new(instr);
    let result = vm.run();
    assert!(result.is_err());
    assert!(result.unwrap_err().contains("Underflow"));
}

#[test]
fn test_vm_string_concatenation() {
    let mut instr = Instructions::new();
    instr.constants.push(Object::String("Hello".to_string()));
    instr.constants.push(Object::String(" World".to_string()));
    instr.bytes = vec![
        Opcode::Constant.tag(),
        0,
        0,
        Opcode::Constant.tag(),
        0,
        1,
        Opcode::Add.tag(),
    ];
    let mut vm = VM::new(instr);
    let result = vm.run();
    assert!(result.is_ok());
    assert_eq!(result.unwrap(), Object::String("Hello World".to_string()));
}

#[test]
fn test_vm_jump() {
    let mut instr = Instructions::new();
    instr.constants.push(Object::Integer(5));
    instr.constants.push(Object::Integer(10));
    instr.constants.push(Object::Integer(20));
    instr.bytes = vec![
        Opcode::Constant.tag(),
        0,
        0,
        Opcode::Jump.tag(),
        0,
        6,
        Opcode::Constant.tag(),
        0,
        1,
        Opcode::Constant.tag(),
        0,
        2,
    ];
    let mut vm = VM::new(instr);
    let result = vm.run();
    assert!(result.is_ok());
    assert_eq!(result.unwrap(), Object::Integer(20));
}

#[test]
fn test_vm_get_global() {
    let mut instr = Instructions::new();
    instr.constants.push(Object::Integer(10));
    instr.constants.push(Object::String("x".to_string()));
    instr.bytes = vec![
        Opcode::Constant.tag(),
        0,
        0,
        Opcode::SetGlobal.tag(),
        0,
        1,
        Opcode::GetGlobal.tag(),
        0,
        1,
    ];
    let mut vm = VM::new(instr);
    let result = vm.run();
    assert!(result.is_ok());
    assert_eq!(result.unwrap(), Object::Integer(10));
}

