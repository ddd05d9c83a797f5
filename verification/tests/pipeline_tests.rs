//! End-to-end and property tests: encode/decode round trips, the compile-run
//! pipeline, backpatching, runtime errors, capacity boundaries, and the
//! disassembler's output format.

use sofia::compiler::Compiler;
use sofia::disassembler::disassemble;
use sofia::instructions::Instructions;
use sofia::lexer::Lexer;
use sofia::object::{object_eq, Object};
use sofia::opcode::Opcode;
use sofia::parser::Parser;
use sofia::vm::{STACK_SIZE, VM};

fn compile_source(input: &str) -> Instructions {
    let lexer = Lexer::new(input.to_string());
    let mut parser = Parser::new(lexer);
    let program = parser.parse_program().unwrap();
    let mut compiler = Compiler::new();
    compiler.compile(&program).unwrap()
}

fn run_source(input: &str) -> Result<Object, String> {
    let mut vm = VM::new(compile_source(input));
    vm.run()
}

#[test]
fn encoding_constant_roundtrip() {
    let mut instr = Instructions::new();
    instr.emit(Opcode::Constant, &[255]);
    assert_eq!(instr.bytes, vec![1, 0, 255]);
    let (operands, read) = Instructions::read_operands(Opcode::Constant, &instr.bytes, 1);
    assert_eq!(operands, vec![255]);
    assert_eq!(read, 2);
    assert_eq!(Instructions::read_opcode(&instr.bytes, 0), Some(Opcode::Constant));
}

#[test]
fn encoding_every_opcode_roundtrips() {
    for byte in 1..=41u8 {
        let op = Opcode::from_byte(byte).unwrap();
        let widths = op.operand_widths();
        let operands: Vec<u16> = widths.iter().map(|w| if *w == 1 { 200u16 } else { 1024u16 }).collect();
        let mut instr = Instructions::new();
        instr.emit(op, &operands);
        assert_eq!(Instructions::read_opcode(&instr.bytes, 0), Some(op));
        let (decoded, read) = Instructions::read_operands(op, &instr.bytes, 1);
        assert_eq!(decoded, operands, "operands of {} survive the round trip", op.mnemonic());
        assert_eq!(read + 1, instr.bytes.len());
    }
}

#[test]
fn encoding_jump_is_big_endian() {
    let mut instr = Instructions::new();
    instr.emit(Opcode::Jump, &[1024]);
    assert_eq!(instr.bytes[1], 0x04);
    assert_eq!(instr.bytes[2], 0x00);
}

#[test]
fn pipeline_addition() {
    // A bare expression statement discards its value with a trailing `Pop`,
    // so the sum is observed through `return`.
    assert_eq!(run_source("return 10 + 20;").unwrap(), Object::Integer(30));
    assert_eq!(run_source("10 + 20").unwrap(), Object::Null);
}

#[test]
fn pipeline_if_else_takes_consequence() {
    assert_eq!(
        run_source("if (true) { return 1; } else { return 2; }").unwrap(),
        Object::Integer(1)
    );
}

#[test]
fn pipeline_if_else_statement_discards_its_value() {
    // The two stack rules compose: each branch statement pops its own value,
    // so the `if` expression leaves nothing, and the statement's own
    // trailing `Pop` then underflows the empty stack.
    let result = run_source("if (true) { 1 } else { 2 }");
    assert!(result.is_err());
    assert!(result.unwrap_err().contains("Underflow"));
}

#[test]
fn pipeline_if_else_layout() {
    // The conditional jump is patched to the offset right after the
    // consequence, which is where the unconditional jump over the
    // alternative stands; that jump is patched to the offset right after
    // the alternative.
    let instr = compile_source("if (true) { 1 } else { 2 }");
    let (jif, _) = Instructions::read_operands(Opcode::JumpIfFalse, &instr.bytes, 2);
    let target = jif[0] as usize;
    assert_eq!(Instructions::read_opcode(&instr.bytes, target), Some(Opcode::Jump));
    let (jmp, _) = Instructions::read_operands(Opcode::Jump, &instr.bytes, target + 1);
    assert_eq!(Instructions::read_opcode(&instr.bytes, jmp[0] as usize), Some(Opcode::Pop));
}

#[test]
fn pipeline_if_false_statement_underflows() {
    // A false condition leaves no value for the statement's trailing `Pop`,
    // so the run stops with a stack underflow.
    let result = run_source("if (false) { return 1; } return 2;");
    assert!(result.is_err());
    assert!(result.unwrap_err().contains("Underflow"));
}

#[test]
fn backpatch_leaves_no_zero_jump_operand() {
    scan_jumps_nonzero(&compile_source("if (true) { 1 } else { 2 }"));
    scan_jumps_nonzero(&compile_source(
        "let a = 1; if (a) { if (true) { 1 } else { 2 } } else { 3 } 4;",
    ));
}

fn scan_jumps_nonzero(instr: &Instructions) {
    let mut i = 0;
    let mut jumps = 0;
    while i < instr.bytes.len() {
        let op = Instructions::read_opcode(&instr.bytes, i).unwrap();
        let (operands, read) = Instructions::read_operands(op, &instr.bytes, i + 1);
        if op == Opcode::Jump || op == Opcode::JumpIfFalse || op == Opcode::JumpIfTrue {
            jumps += 1;
            assert_ne!(operands[0], 0, "a jump target byte pair stayed [0,0]");
        }
        i += 1 + read;
    }
    assert!(jumps >= 2);
}

#[test]
fn pipeline_globals_round_trip() {
    let result = run_source("let x = 10; let unrelated = 4; return x;");
    assert_eq!(result.unwrap(), Object::Integer(10));
}

#[test]
fn pipeline_unresolved_identifier_lowers_to_null() {
    assert_eq!(run_source("return ghostly;").unwrap(), Object::Null);
}

#[test]
fn pipeline_array_literal_and_index() {
    assert_eq!(run_source("return [1, 2, 3];").unwrap(),
        Object::Array(vec![Object::Integer(1), Object::Integer(2), Object::Integer(3)]));
}

#[test]
fn pipeline_string_concatenation() {
    assert_eq!(
        run_source("return \"foo\" + \"bar\";").unwrap(),
        Object::String("foobar".to_string())
    );
}

#[test]
fn pipeline_eager_logic_operators() {
    // Both operands are compiled and popped: `&&` and `||` never
    // short-circuit in the bytecode backend.
    assert_eq!(run_source("return true && false;").unwrap(), Object::Boolean(false));
    assert_eq!(run_source("return false || true;").unwrap(), Object::Boolean(true));
}

#[test]
fn pipeline_unsupported_construct_is_a_typed_error() {
    let lexer = Lexer::new("fn(x) { x }".to_string());
    let mut parser = Parser::new(lexer);
    let program = parser.parse_program().unwrap();
    let mut compiler = Compiler::new();
    let result = compiler.compile(&program);
    assert!(matches!(result, Err(sofia::compiler::CompilerError::Unsupported(_))));
}

#[test]
fn vm_mod_by_zero_is_an_error() {
    let mut instr = Instructions::new();
    instr.constants.push(Object::Integer(10));
    instr.constants.push(Object::Integer(0));
    instr.bytes = vec![
        Opcode::Constant.tag(),
        0,
        0,
        Opcode::Constant.tag(),
        0,
        1,
        Opcode::Mod.tag(),
    ];
    let mut vm = VM::new(instr);
    let result = vm.run();
    assert!(result.is_err());
    assert!(result.unwrap_err().contains("ноль"));
}

#[test]
fn vm_negative_power_is_an_error() {
    let mut instr = Instructions::new();
    instr.constants.push(Object::Integer(2));
    instr.constants.push(Object::Integer(-3));
    instr.bytes = vec![
        Opcode::Constant.tag(),
        0,
        0,
        Opcode::Constant.tag(),
        0,
        1,
        Opcode::Pow.tag(),
    ];
    let mut vm = VM::new(instr);
    let result = vm.run();
    assert!(result.is_err());
    assert!(result.unwrap_err().contains("Отрицательные"));
}

#[test]
fn vm_type_mismatch_names_the_operation_and_types() {
    let mut instr = Instructions::new();
    instr.constants.push(Object::Integer(1));
    instr.bytes = vec![Opcode::True.tag(), Opcode::Constant.tag(), 0, 0, Opcode::Add.tag()];
    let mut vm = VM::new(instr);
    let result = vm.run();
    assert!(result.is_err());
    let message = result.unwrap_err();
    assert!(message.contains("+"));
    assert!(message.contains("BOOLEAN"));
    assert!(message.contains("INTEGER"));
}

#[test]
fn vm_missing_constant_names_the_index() {
    let mut instr = Instructions::new();
    instr.bytes = vec![Opcode::Constant.tag(), 0, 7];
    let mut vm = VM::new(instr);
    let result = vm.run();
    assert!(result.is_err());
    let message = result.unwrap_err();
    assert!(message.contains("Константа"));
    assert!(message.contains("7"));
}

#[test]
fn vm_unknown_opcode_is_a_decode_error() {
    for byte in [0u8, 42u8] {
        assert_eq!(Opcode::from_byte(byte), None);
        let mut instr = Instructions::new();
        instr.bytes = vec![byte];
        let mut vm = VM::new(instr);
        let result = vm.run();
        assert!(result.is_err());
        let message = result.unwrap_err();
        assert!(message.contains("опкод"));
        assert!(message.contains(&byte.to_string()));
    }
}

#[test]
fn vm_unimplemented_opcode_is_an_error() {
    let mut instr = Instructions::new();
    instr.bytes = vec![Opcode::This.tag()];
    let mut vm = VM::new(instr);
    let result = vm.run();
    assert!(result.is_err());
    let message = result.unwrap_err();
    assert!(message.contains("не реализован"));
    assert!(message.contains("THIS"));
}

#[test]
fn vm_overflow_exactly_at_the_boundary() {
    // Filling the stack to its capacity succeeds; one more push overflows.
    let mut full = Instructions::new();
    full.constants.push(Object::Integer(1));
    let mut bytes = vec![];
    for _ in 0..STACK_SIZE {
        bytes.push(Opcode::Constant.tag());
        bytes.push(0);
        bytes.push(0);
    }
    full.bytes = bytes.clone();
    let mut vm = VM::new(full);
    assert_eq!(vm.run().unwrap(), Object::Integer(1));

    let mut over = Instructions::new();
    over.constants.push(Object::Integer(1));
    bytes.push(Opcode::Constant.tag());
    bytes.push(0);
    bytes.push(0);
    over.bytes = bytes;
    let mut vm2 = VM::new(over);
    let result = vm2.run();
    assert!(result.is_err());
    assert!(result.unwrap_err().contains("Переполнение"));
}

#[test]
fn vm_index_out_of_range_yields_null() {
    let mut instr = Instructions::new();
    instr.constants.push(Object::Integer(1));
    instr.constants.push(Object::Integer(5));
    instr.bytes = vec![
        Opcode::Constant.tag(),
        0,
        0,
        Opcode::Array.tag(),
        0,
        1,
        Opcode::Constant.tag(),
        0,
        1,
        Opcode::Index.tag(),
    ];
    let mut vm = VM::new(instr);
    assert_eq!(vm.run().unwrap(), Object::Null);
}

#[test]
fn vm_index_in_range_yields_the_element() {
    let mut instr = Instructions::new();
    instr.constants.push(Object::Integer(7));
    instr.constants.push(Object::Integer(9));
    instr.constants.push(Object::Integer(1));
    instr.bytes = vec![
        Opcode::Constant.tag(),
        0,
        0,
        Opcode::Constant.tag(),
        0,
        1,
        Opcode::Array.tag(),
        0,
        2,
        Opcode::Constant.tag(),
        0,
        2,
        Opcode::Index.tag(),
    ];
    let mut vm = VM::new(instr);
    assert_eq!(vm.run().unwrap(), Object::Integer(9));
}

#[test]
fn vm_jump_if_true_taken() {
    let mut instr = Instructions::new();
    instr.constants.push(Object::Integer(1));
    instr.constants.push(Object::Integer(2));
    instr.bytes = vec![
        Opcode::True.tag(),
        Opcode::JumpIfTrue.tag(),
        0,
        7,
        Opcode::Constant.tag(),
        0,
        0,
        Opcode::Constant.tag(),
        0,
        1,
    ];
    let mut vm = VM::new(instr);
    assert_eq!(vm.run().unwrap(), Object::Integer(2));
}

#[test]
fn vm_return_yields_top_of_stack() {
    let mut instr = Instructions::new();
    instr.constants.push(Object::Integer(11));
    instr.constants.push(Object::Integer(99));
    instr.bytes = vec![
        Opcode::Constant.tag(),
        0,
        0,
        Opcode::Return.tag(),
        Opcode::Constant.tag(),
        0,
        1,
    ];
    let mut vm = VM::new(instr);
    assert_eq!(vm.run().unwrap(), Object::Integer(11));
}

#[test]
fn vm_wrapping_arithmetic_never_panics() {
    let mut instr = Instructions::new();
    instr.constants.push(Object::Integer(i64::MAX));
    instr.constants.push(Object::Integer(1));
    instr.bytes = vec![
        Opcode::Constant.tag(),
        0,
        0,
        Opcode::Constant.tag(),
        0,
        1,
        Opcode::Add.tag(),
    ];
    let mut vm = VM::new(instr);
    assert_eq!(vm.run().unwrap(), Object::Integer(i64::MIN));
}

#[test]
fn object_equality_is_structural() {
    let a = Object::Array(vec![Object::Integer(1), Object::String("x".to_string())]);
    let b = Object::Array(vec![Object::Integer(1), Object::String("x".to_string())]);
    let c = Object::Array(vec![Object::Integer(2), Object::String("x".to_string())]);
    assert!(object_eq(&a, &b));
    assert!(!object_eq(&a, &c));
    assert!(!object_eq(&a, &Object::Null));
    assert_eq!(a.type_str(), "ARRAY");
    assert_eq!(Object::Integer(0).type_str(), "INTEGER");
}

#[test]
fn object_duplicate_preserves_value() {
    let a = Object::Array(vec![Object::Integer(1), Object::Boolean(true)]);
    let copy = a.duplicate();
    assert_eq!(a, copy);
}

#[test]
fn disassemble_lists_constants_and_instructions() {
    let mut instr = Instructions::new();
    instr.add_constant(Object::Integer(42));
    instr.emit(Opcode::Constant, &[0]);
    instr.emit(Opcode::Pop, &[]);
    let text = disassemble(&instr);
    assert!(text.contains("=== CONSTANTS POOL ===\n[0] 42\n"));
    assert!(text.contains("=== INSTRUCTIONS ===\n0000 CONSTANT 0\n0003 POP\n"));
}

#[test]
fn disassemble_renders_unknown_opcode() {
    let mut instr = Instructions::new();
    instr.bytes = vec![42];
    let text = disassemble(&instr);
    assert!(text.contains("0000 UNKNOWN_OPCODE (42)\n"));
}

#[test]
fn vm_set_global_then_overwrite() {
    assert_eq!(run_source("let x = 1; let x = 5; return x;").unwrap(), Object::Integer(5));
}

#[test]
fn vm_integer_zero_and_empty_string_are_truthy() {
    assert_eq!(run_source("if (0) { return 1; } else { return 2; }").unwrap(), Object::Integer(1));
    assert_eq!(run_source("if (\"\") { return 1; } else { return 2; }").unwrap(), Object::Integer(1));
}

#[test]
fn vm_comparisons_on_strings_are_lexicographic() {
    assert_eq!(run_source("return \"abc\" < \"abd\";").unwrap(), Object::Boolean(true));
    assert_eq!(run_source("return \"b\" > \"azzz\";").unwrap(), Object::Boolean(true));
}

#[test]
fn vm_get_local_reads_an_absolute_slot() {
    let mut instr = Instructions::new();
    instr.constants.push(Object::Integer(7));
    instr.bytes = vec![Opcode::Constant.tag(), 0, 0, Opcode::GetLocal.tag(), 0];
    let mut vm = VM::new(instr);
    assert_eq!(vm.run().unwrap(), Object::Integer(7));
}

#[test]
fn vm_set_local_writes_an_absolute_slot() {
    let mut instr = Instructions::new();
    instr.constants.push(Object::Integer(3));
    instr.constants.push(Object::Integer(9));
    instr.bytes = vec![
        Opcode::Constant.tag(),
        0,
        0,
        Opcode::Constant.tag(),
        0,
        1,
        Opcode::SetLocal.tag(),
        0,
        Opcode::GetLocal.tag(),
        0,
    ];
    let mut vm = VM::new(instr);
    assert_eq!(vm.run().unwrap(), Object::Integer(9));
}

#[test]
fn vm_hash_is_not_implemented() {
    // Hash construction is in the recognized-but-unimplemented group: it
    // decodes, but executing it is an explicit error naming the opcode.
    let mut instr = Instructions::new();
    instr.constants.push(Object::String("k".to_string()));
    instr.constants.push(Object::Integer(1));
    instr.bytes = vec![
        Opcode::Constant.tag(),
        0,
        0,
        Opcode::Constant.tag(),
        0,
        1,
        Opcode::Hash.tag(),
        0,
        1,
    ];
    let mut vm = VM::new(instr);
    let result = vm.run();
    assert!(result.is_err());
    let message = result.unwrap_err();
    assert!(message.contains("не реализован"));
    assert!(message.contains("HASH"));
}

#[test]
fn vm_no_op_does_nothing() {
    let mut instr = Instructions::new();
    instr.constants.push(Object::Integer(4));
    instr.bytes = vec![Opcode::NoOp.tag(), Opcode::Constant.tag(), 0, 0, Opcode::NoOp.tag()];
    let mut vm = VM::new(instr);
    assert_eq!(vm.run().unwrap(), Object::Integer(4));
}

#[test]
fn vm_set_global_rejects_a_non_string_name() {
    let mut instr = Instructions::new();
    instr.constants.push(Object::Integer(3));
    instr.bytes = vec![
        Opcode::Constant.tag(),
        0,
        0,
        Opcode::SetGlobal.tag(),
        0,
        0,
    ];
    let mut vm = VM::new(instr);
    let result = vm.run();
    assert!(result.is_err());
    assert!(result.unwrap_err().contains("имя"));
}

#[test]
fn vm_neg_rejects_a_non_integer() {
    let mut instr = Instructions::new();
    instr.bytes = vec![Opcode::True.tag(), Opcode::Neg.tag()];
    let mut vm = VM::new(instr);
    let result = vm.run();
    assert!(result.is_err());
    assert!(result.unwrap_err().contains("BOOLEAN"));
}

#[test]
fn vm_compare_rejects_mixed_types() {
    let mut instr = Instructions::new();
    instr.constants.push(Object::Integer(1));
    instr.bytes = vec![Opcode::True.tag(), Opcode::Constant.tag(), 0, 0, Opcode::LessThan.tag()];
    let mut vm = VM::new(instr);
    let result = vm.run();
    assert!(result.is_err());
    let message = result.unwrap_err();
    assert!(message.contains("сравнить"));
    assert!(message.contains("BOOLEAN"));
    assert!(message.contains("INTEGER"));
}

#[test]
fn vm_index_rejects_a_non_array() {
    let mut instr = Instructions::new();
    instr.constants.push(Object::Integer(1));
    instr.bytes = vec![
        Opcode::Constant.tag(),
        0,
        0,
        Opcode::Constant.tag(),
        0,
        0,
        Opcode::Index.tag(),
    ];
    let mut vm = VM::new(instr);
    let result = vm.run();
    assert!(result.is_err());
    assert!(result.unwrap_err().contains("индексирования"));
}

#[test]
fn vm_string_subtraction_names_the_operation() {
    let mut instr = Instructions::new();
    instr.constants.push(Object::String("a".to_string()));
    instr.constants.push(Object::String("b".to_string()));
    instr.bytes = vec![
        Opcode::Constant.tag(),
        0,
        0,
        Opcode::Constant.tag(),
        0,
        1,
        Opcode::Sub.tag(),
    ];
    let mut vm = VM::new(instr);
    let result = vm.run();
    assert!(result.is_err());
    let message = result.unwrap_err();
    assert!(message.contains("строк"));
    assert!(message.contains("-"));
}

#[test]
fn vm_truncated_operand_is_a_decode_error() {
    let mut instr = Instructions::new();
    instr.bytes = vec![Opcode::Constant.tag(), 0];
    let mut vm = VM::new(instr);
    let result = vm.run();
    assert!(result.is_err());
    assert!(result.unwrap_err().contains("байтов"));
}

#[test]
fn vm_division_wrap_case_yields_the_minimum() {
    let mut instr = Instructions::new();
    instr.constants.push(Object::Integer(i64::MIN));
    instr.constants.push(Object::Integer(-1));
    instr.bytes = vec![
        Opcode::Constant.tag(),
        0,
        0,
        Opcode::Constant.tag(),
        0,
        1,
        Opcode::Div.tag(),
    ];
    let mut vm = VM::new(instr);
    assert_eq!(vm.run().unwrap(), Object::Integer(i64::MIN));
}
