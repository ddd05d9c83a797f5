//! The virtual machine: a stack machine that executes a bytecode container
//! against a fixed-capacity value stack and a globals table, producing one
//! final value or failing fast.
//!
//! Execution is mirrored instruction by instruction: [`step_spec`] is the
//! machine's transition function over [`MachineState`], and [`run_spec`]
//! iterates it. `run` returns exactly what `run_spec` computes, under a step
//! budget so large that exhausting it would take centuries; a program that
//! loops forever would hit that budget rather than hang a proof of
//! termination.

use vstd::prelude::*;
use vstd::string::StringExecFns;

use crate::instructions::Instructions;
use crate::object::Object;
use crate::object::Value;
use crate::object::arr_view;
use crate::object::lemma_arr_view;
use crate::object::lemma_arr_view_push;
use crate::object::lemma_arr_view_update;
use crate::object::object_eq;
use crate::opcode::Opcode;
use crate::opcode::opcode_of_byte;
use crate::strutil::str_eq;
use crate::strutil::u64_to_string;

verus! {

broadcast use
    vstd::std_specs::vec::group_vec_axioms,
    vstd::seq::group_seq_axioms,
    vstd::map::group_map_axioms,
    vstd::set::group_set_axioms;

/// The capacity of the value stack, in elements.
pub const STACK_SIZE: usize = 2048;

/// The number of general-purpose registers.
const NUM_REGISTERS: usize = 16;

/// The step budget of one `run` call.
pub const RUN_BUDGET: u64 = u64::MAX;

/// A binary operation of the machine's arithmetic and logic group.
#[derive(Debug, PartialEq, Eq, Structural, Clone, Copy)]
pub enum BinOp {
    Add,
    Sub,
    Mul,
    Div,
    Mod,
    Pow,
}

/// The type of a runtime value, as error messages name it.
#[derive(Debug, PartialEq, Eq, Structural, Clone, Copy)]
pub enum TypeTag {
    Integer,
    Boolean,
    Null,
    Str,
    Array,
}

/// The type of a value.
pub open spec fn value_tag(v: Value) -> TypeTag {
    match v {
        Value::Integer(_) => TypeTag::Integer,
        Value::Boolean(_) => TypeTag::Boolean,
        Value::Null => TypeTag::Null,
        Value::Str(_) => TypeTag::Str,
        Value::Array(_) => TypeTag::Array,
    }
}

/// The display name of a type, as the error messages spell it.
pub open spec fn tag_text(t: TypeTag) -> Seq<char> {
    match t {
        TypeTag::Integer => "INTEGER"@,
        TypeTag::Boolean => "BOOLEAN"@,
        TypeTag::Null => "NULL"@,
        TypeTag::Str => "STRING"@,
        TypeTag::Array => "ARRAY"@,
    }
}

/// The source text of a binary operation, as the error messages spell it.
pub open spec fn op_text(op: BinOp) -> Seq<char> {
    match op {
        BinOp::Add => "+"@,
        BinOp::Sub => "-"@,
        BinOp::Mul => "*"@,
        BinOp::Div => "/"@,
        BinOp::Mod => "%"@,
        BinOp::Pow => "**"@,
    }
}

/// A runtime failure. Execution halts immediately on the first one.
#[derive(Debug, PartialEq, Clone)]
pub enum VmError {
    /// The byte at the instruction pointer is no valid opcode tag.
    UnknownOpcode(u8),
    /// The instruction stream ends inside an operand.
    TruncatedOperand,
    /// An operand indexes past the constant pool.
    MissingConstant(u16),
    /// A push onto a full stack.
    StackOverflow,
    /// A pop from an empty stack.
    StackUnderflow,
    /// Division by zero.
    DivisionByZero,
    /// Modulo by zero.
    ModuloByZero,
    /// Integer exponentiation with a negative exponent.
    NegativePower,
    /// A binary operation on operand types it does not support: the
    /// operation and both types.
    TypeMismatch(BinOp, TypeTag, TypeTag),
    /// A binary operation on strings other than concatenation.
    StringOpUnsupported(BinOp),
    /// Unary minus on a value of this type, which is no integer.
    NegTypeMismatch(TypeTag),
    /// An ordering comparison on these two types, for which it is not
    /// defined.
    CompareTypeMismatch(TypeTag, TypeTag),
    /// A global access whose name constant is no string.
    ExpectedName,
    /// An indexing operation on types it does not support.
    IndexTypeMismatch,
    /// `Return` while a call frame is active.
    ReturnUnimplemented,
    /// An opcode that decodes but that the interpreter loop does not realize.
    NotImplemented(Opcode),
    /// The run's step budget ran out.
    OutOfSteps,
}

/// The machine's mutable state: the instruction pointer, the stack pointer,
/// the full value stack, and the globals table.
#[verifier::ext_equal]
pub struct MachineState {
    pub ip: int,
    pub sp: int,
    pub stack: Seq<Value>,
    pub globals: Map<Seq<char>, Value>,
}

/// What one instruction does: continue in a new state, halt with a value, or
/// fail.
pub enum StepOutcome {
    Next(MachineState),
    Halt(Value),
    Trap(VmError),
}

/// Truthiness: `Null` and `false` are falsy, every other value is truthy,
/// integer zero and the empty string included.
pub open spec fn truthy(v: Value) -> bool {
    !(v is Null || v == Value::Boolean(false))
}

/// Lexicographic comparison of two character sequences by code point:
/// negative, zero or positive as `x` is below, equal to or above `y`.
pub open spec fn lex_cmp(x: Seq<char>, y: Seq<char>) -> int
    decreases x.len(),
{
    if x.len() == 0 && y.len() == 0 {
        0
    } else if x.len() == 0 {
        -1
    } else if y.len() == 0 {
        1
    } else if (x[0] as u32) < (y[0] as u32) {
        -1
    } else if (x[0] as u32) > (y[0] as u32) {
        1
    } else {
        lex_cmp(x.skip(1), y.skip(1))
    }
}

/// The machine's ordering: integers by value, strings lexicographically,
/// nothing else is comparable.
pub open spec fn cmp_spec(a: Value, b: Value) -> Result<int, VmError> {
    match (a, b) {
        (Value::Integer(x), Value::Integer(y)) => Ok(
            if x < y {
                -1
            } else if x > y {
                1
            } else {
                0
            },
        ),
        (Value::Str(x), Value::Str(y)) => Ok(lex_cmp(x, y)),
        _ => Err(VmError::CompareTypeMismatch(value_tag(a), value_tag(b))),
    }
}

/// Exponentiation by repeated wrapping multiplication.
pub open spec fn pow_wrap(base: i64, exp: nat) -> i64
    decreases exp,
{
    if exp == 0 {
        1
    } else {
        vstd::wrapping::i64_specs::wrapping_mul(pow_wrap(base, (exp - 1) as nat), base)
    }
}

/// Truncating signed division, wrapping on the one overflowing case.
pub open spec fn div_wrap(x: i64, y: i64) -> i64 {
    match x.checked_div(y) {
        Some(q) => q,
        None => i64::MIN,
    }
}

/// Truncating signed remainder, zero on the one overflowing case.
pub open spec fn rem_wrap(x: i64, y: i64) -> i64 {
    match x.checked_rem(y) {
        Some(m) => m,
        None => 0,
    }
}

/// Wrapping negation: the minimum value is its own negation.
pub open spec fn neg_wrap(n: i64) -> i64 {
    if n == i64::MIN {
        i64::MIN
    } else {
        (-n) as i64
    }
}

/// The machine's binary operations: integer arithmetic wraps, `+` on two
/// strings concatenates, division and modulo by zero and negative exponents
/// are errors, and every other combination is a type mismatch.
pub open spec fn apply_op_spec(a: Value, b: Value, op: BinOp) -> Result<Value, VmError> {
    match (a, b) {
        (Value::Integer(x), Value::Integer(y)) => match op {
            BinOp::Add => Ok(Value::Integer(vstd::wrapping::i64_specs::wrapping_add(x, y))),
            BinOp::Sub => Ok(Value::Integer(vstd::wrapping::i64_specs::wrapping_sub(x, y))),
            BinOp::Mul => Ok(Value::Integer(vstd::wrapping::i64_specs::wrapping_mul(x, y))),
            BinOp::Div => if y == 0 {
                Err(VmError::DivisionByZero)
            } else {
                Ok(Value::Integer(div_wrap(x, y)))
            },
            BinOp::Mod => if y == 0 {
                Err(VmError::ModuloByZero)
            } else {
                Ok(Value::Integer(rem_wrap(x, y)))
            },
            BinOp::Pow => if y < 0 {
                Err(VmError::NegativePower)
            } else {
                Ok(Value::Integer(pow_wrap(x, (y as u64 % 0x1_0000_0000) as nat)))
            },
        },
        (Value::Str(x), Value::Str(y)) => match op {
            BinOp::Add => Ok(Value::Str(x + y)),
            _ => Err(VmError::StringOpUnsupported(op)),
        },
        _ => Err(VmError::TypeMismatch(op, value_tag(a), value_tag(b))),
    }
}

/// Pushing onto the stack: an overflow error exactly when the stack pointer
/// stands at the capacity, else the value lands at the pointer.
pub open spec fn push_spec(st: MachineState, ip2: int, v: Value) -> StepOutcome {
    if st.sp >= STACK_SIZE {
        StepOutcome::Trap(VmError::StackOverflow)
    } else {
        StepOutcome::Next(
            MachineState { ip: ip2, sp: st.sp + 1, stack: st.stack.update(st.sp, v), ..st },
        )
    }
}

/// The two-byte big-endian operand at `ip`, if the stream is long enough.
pub open spec fn operand16(code: Seq<u8>, ip: int) -> Option<int> {
    if ip + 1 < code.len() {
        Some(code[ip] * 256 + code[ip + 1])
    } else {
        None
    }
}

/// A binary instruction: pop the right operand, pop the left, apply, push.
pub open spec fn binary_step(st: MachineState, ip2: int, op: BinOp) -> StepOutcome {
    if st.sp < 2 {
        StepOutcome::Trap(VmError::StackUnderflow)
    } else {
        let b = st.stack[st.sp - 1];
        let a = st.stack[st.sp - 2];
        match apply_op_spec(a, b, op) {
            Ok(v) => push_spec(MachineState { sp: st.sp - 2, ..st }, ip2, v),
            Err(e) => StepOutcome::Trap(e),
        }
    }
}

/// The boolean a comparison opcode keeps of the ordering `c`.
pub open spec fn cmp_keep(which: Opcode, c: int) -> bool {
    if which == Opcode::GreaterThan {
        c > 0
    } else if which == Opcode::LessThan {
        c < 0
    } else if which == Opcode::GreaterThanOrEqual {
        c >= 0
    } else {
        c <= 0
    }
}

/// A comparison instruction: pop both operands, compare, push the boolean
/// the opcode asks of the ordering.
pub open spec fn cmp_step(st: MachineState, ip2: int, which: Opcode) -> StepOutcome {
    if st.sp < 2 {
        StepOutcome::Trap(VmError::StackUnderflow)
    } else {
        let b = st.stack[st.sp - 1];
        let a = st.stack[st.sp - 2];
        match cmp_spec(a, b) {
            Ok(c) => push_spec(
                MachineState { sp: st.sp - 2, ..st },
                ip2,
                Value::Boolean(cmp_keep(which, c)),
            ),
            Err(e) => StepOutcome::Trap(e),
        }
    }
}

/// The transition function: what executing the instruction at `st.ip` does.
/// It reads the opcode byte, advances past it and its operands, and performs
/// the operation.
pub open spec fn step_spec(code: Seq<u8>, consts: Seq<Value>, st: MachineState) -> StepOutcome {
    if !(0 <= st.ip < code.len()) {
        StepOutcome::Halt(Value::Null)
    } else {
        match opcode_of_byte(code[st.ip]) {
            None => StepOutcome::Trap(VmError::UnknownOpcode(code[st.ip])),
            Some(op) => {
                let ip1 = st.ip + 1;
                match op {
                    Opcode::Constant => match operand16(code, ip1) {
                        None => StepOutcome::Trap(VmError::TruncatedOperand),
                        Some(idx) => {
                            if idx >= consts.len() {
                                StepOutcome::Trap(VmError::MissingConstant(idx as u16))
                            } else {
                                push_spec(st, ip1 + 2, consts[idx])
                            }
                        },
                    },
                    Opcode::Pop => {
                        if st.sp == 0 {
                            StepOutcome::Trap(VmError::StackUnderflow)
                        } else {
                            StepOutcome::Next(MachineState { ip: ip1, sp: st.sp - 1, ..st })
                        }
                    },
                    Opcode::True => push_spec(st, ip1, Value::Boolean(true)),
                    Opcode::False => push_spec(st, ip1, Value::Boolean(false)),
                    Opcode::Null => push_spec(st, ip1, Value::Null),
                    Opcode::Add => binary_step(st, ip1, BinOp::Add),
                    Opcode::Sub => binary_step(st, ip1, BinOp::Sub),
                    Opcode::Mul => binary_step(st, ip1, BinOp::Mul),
                    Opcode::Div => binary_step(st, ip1, BinOp::Div),
                    Opcode::Mod => binary_step(st, ip1, BinOp::Mod),
                    Opcode::Pow => binary_step(st, ip1, BinOp::Pow),
                    Opcode::Neg => {
                        if st.sp == 0 {
                            StepOutcome::Trap(VmError::StackUnderflow)
                        } else {
                            match st.stack[st.sp - 1] {
                                Value::Integer(n) => push_spec(
                                    MachineState { sp: st.sp - 1, ..st },
                                    ip1,
                                    Value::Integer(neg_wrap(n)),
                                ),
                                _ => StepOutcome::Trap(
                                    VmError::NegTypeMismatch(value_tag(st.stack[st.sp - 1])),
                                ),
                            }
                        }
                    },
                    Opcode::Not => {
                        if st.sp == 0 {
                            StepOutcome::Trap(VmError::StackUnderflow)
                        } else {
                            let v = match st.stack[st.sp - 1] {
                                Value::Boolean(b) => Value::Boolean(!b),
                                Value::Null => Value::Boolean(true),
                                _ => Value::Boolean(false),
                            };
                            push_spec(MachineState { sp: st.sp - 1, ..st }, ip1, v)
                        }
                    },
                    Opcode::And => {
                        if st.sp < 2 {
                            StepOutcome::Trap(VmError::StackUnderflow)
                        } else {
                            let v = Value::Boolean(
                                truthy(st.stack[st.sp - 2]) && truthy(st.stack[st.sp - 1]),
                            );
                            push_spec(MachineState { sp: st.sp - 2, ..st }, ip1, v)
                        }
                    },
                    Opcode::Or => {
                        if st.sp < 2 {
                            StepOutcome::Trap(VmError::StackUnderflow)
                        } else {
                            let v = Value::Boolean(
                                truthy(st.stack[st.sp - 2]) || truthy(st.stack[st.sp - 1]),
                            );
                            push_spec(MachineState { sp: st.sp - 2, ..st }, ip1, v)
                        }
                    },
                    Opcode::Equal => {
                        if st.sp < 2 {
                            StepOutcome::Trap(VmError::StackUnderflow)
                        } else {
                            let v = Value::Boolean(st.stack[st.sp - 2] == st.stack[st.sp - 1]);
                            push_spec(MachineState { sp: st.sp - 2, ..st }, ip1, v)
                        }
                    },
                    Opcode::NotEqual => {
                        if st.sp < 2 {
                            StepOutcome::Trap(VmError::StackUnderflow)
                        } else {
                            let v = Value::Boolean(st.stack[st.sp - 2] != st.stack[st.sp - 1]);
                            push_spec(MachineState { sp: st.sp - 2, ..st }, ip1, v)
                        }
                    },
                    Opcode::GreaterThan => cmp_step(st, ip1, Opcode::GreaterThan),
                    Opcode::LessThan => cmp_step(st, ip1, Opcode::LessThan),
                    Opcode::GreaterThanOrEqual => cmp_step(st, ip1, Opcode::GreaterThanOrEqual),
                    Opcode::LessThanOrEqual => cmp_step(st, ip1, Opcode::LessThanOrEqual),
                    Opcode::Jump => match operand16(code, ip1) {
                        None => StepOutcome::Trap(VmError::TruncatedOperand),
                        Some(pos) => StepOutcome::Next(MachineState { ip: pos, ..st }),
                    },
                    Opcode::JumpIfFalse => match operand16(code, ip1) {
                        None => StepOutcome::Trap(VmError::TruncatedOperand),
                        Some(pos) => {
                            if st.sp == 0 {
                                StepOutcome::Trap(VmError::StackUnderflow)
                            } else {
                                let cond = st.stack[st.sp - 1];
                                StepOutcome::Next(
                                    MachineState {
                                        ip: if !truthy(cond) {
                                            pos
                                        } else {
                                            ip1 + 2
                                        },
                                        sp: st.sp - 1,
                                        ..st
                                    },
                                )
                            }
                        },
                    },
                    Opcode::JumpIfTrue => match operand16(code, ip1) {
                        None => StepOutcome::Trap(VmError::TruncatedOperand),
                        Some(pos) => {
                            if st.sp == 0 {
                                StepOutcome::Trap(VmError::StackUnderflow)
                            } else {
                                let cond = st.stack[st.sp - 1];
                                StepOutcome::Next(
                                    MachineState {
                                        ip: if truthy(cond) {
                                            pos
                                        } else {
                                            ip1 + 2
                                        },
                                        sp: st.sp - 1,
                                        ..st
                                    },
                                )
                            }
                        },
                    },
                    Opcode::Return => StepOutcome::Halt(
                        if st.sp > 0 {
                            st.stack[st.sp - 1]
                        } else {
                            Value::Null
                        },
                    ),
                    Opcode::GetGlobal => match operand16(code, ip1) {
                        None => StepOutcome::Trap(VmError::TruncatedOperand),
                        Some(idx) => {
                            if idx >= consts.len() {
                                StepOutcome::Trap(VmError::MissingConstant(idx as u16))
                            } else {
                                match consts[idx] {
                                    Value::Str(name) => {
                                        let v = if st.globals.contains_key(name) {
                                            st.globals[name]
                                        } else {
                                            Value::Null
                                        };
                                        push_spec(st, ip1 + 2, v)
                                    },
                                    _ => StepOutcome::Trap(VmError::ExpectedName),
                                }
                            }
                        },
                    },
                    Opcode::SetGlobal => match operand16(code, ip1) {
                        None => StepOutcome::Trap(VmError::TruncatedOperand),
                        Some(idx) => {
                            if idx >= consts.len() {
                                StepOutcome::Trap(VmError::MissingConstant(idx as u16))
                            } else if st.sp == 0 {
                                StepOutcome::Trap(VmError::StackUnderflow)
                            } else {
                                match consts[idx] {
                                    Value::Str(name) => StepOutcome::Next(
                                        MachineState {
                                            ip: ip1 + 2,
                                            sp: st.sp - 1,
                                            globals: st.globals.insert(name, st.stack[st.sp - 1]),
                                            ..st
                                        },
                                    ),
                                    _ => StepOutcome::Trap(VmError::ExpectedName),
                                }
                            }
                        },
                    },
                    Opcode::GetLocal => {
                        if ip1 >= code.len() {
                            StepOutcome::Trap(VmError::TruncatedOperand)
                        } else {
                            let idx = code[ip1] as int;
                            push_spec(st, ip1 + 1, st.stack[idx])
                        }
                    },
                    Opcode::SetLocal => {
                        if ip1 >= code.len() {
                            StepOutcome::Trap(VmError::TruncatedOperand)
                        } else if st.sp == 0 {
                            StepOutcome::Trap(VmError::StackUnderflow)
                        } else {
                            let idx = code[ip1] as int;
                            StepOutcome::Next(
                                MachineState {
                                    ip: ip1 + 1,
                                    sp: st.sp - 1,
                                    stack: st.stack.update(idx, st.stack[st.sp - 1]),
                                    ..st
                                },
                            )
                        }
                    },
                    Opcode::Array => match operand16(code, ip1) {
                        None => StepOutcome::Trap(VmError::TruncatedOperand),
                        Some(len) => {
                            if len > st.sp {
                                StepOutcome::Trap(VmError::StackUnderflow)
                            } else {
                                let elements = st.stack.subrange(st.sp - len, st.sp);
                                push_spec(
                                    MachineState { sp: st.sp - len, ..st },
                                    ip1 + 2,
                                    Value::Array(elements),
                                )
                            }
                        },
                    },
                    Opcode::Index => {
                        if st.sp < 2 {
                            StepOutcome::Trap(VmError::StackUnderflow)
                        } else {
                            let index = st.stack[st.sp - 1];
                            let target = st.stack[st.sp - 2];
                            match (target, index) {
                                (Value::Array(arr), Value::Integer(i)) => {
                                    let v = if i < 0 || i >= arr.len() {
                                        Value::Null
                                    } else {
                                        arr[i as int]
                                    };
                                    push_spec(MachineState { sp: st.sp - 2, ..st }, ip1, v)
                                },
                                _ => StepOutcome::Trap(VmError::IndexTypeMismatch),
                            }
                        }
                    },
                    Opcode::NoOp => StepOutcome::Next(MachineState { ip: ip1, ..st }),
                    _ => StepOutcome::Trap(VmError::NotImplemented(op)),
                }
            },
        }
    }
}

/// Iterating the transition function, at most `fuel` steps: the result of a
/// run from `st`. A pointer past the end of the stream halts with the top of
/// the stack, or `Null` on an empty stack.
pub open spec fn run_spec(code: Seq<u8>, consts: Seq<Value>, st: MachineState, fuel: nat) -> Result<
    Value,
    VmError,
>
    decreases fuel,
{
    if !(0 <= st.ip < code.len()) {
        Ok(
            if st.sp > 0 {
                st.stack[st.sp - 1]
            } else {
                Value::Null
            },
        )
    } else if fuel == 0 {
        Err(VmError::OutOfSteps)
    } else {
        match step_spec(code, consts, st) {
            StepOutcome::Next(st2) => run_spec(code, consts, st2, (fuel - 1) as nat),
            StepOutcome::Halt(v) => Ok(v),
            StepOutcome::Trap(e) => Err(e),
        }
    }
}

/// The message a runtime failure is reported with: its kind, and the byte,
/// opcode, index, operation or types the failure is about.
pub open spec fn msg_of(e: VmError) -> Seq<char> {
    match e {
        VmError::UnknownOpcode(b) => "Неизвестный опкод: "@ + crate::strutil::dec_digits(b as nat),
        VmError::TruncatedOperand => "Недостаточно байтов для чтения операнда"@,
        VmError::MissingConstant(idx) => "Константа с индексом "@ + crate::strutil::dec_digits(
            idx as nat,
        ) + " не найдена"@,
        VmError::StackOverflow => "Переполнение стека"@,
        VmError::StackUnderflow => "Underflow стека"@,
        VmError::DivisionByZero => "Деление на ноль"@,
        VmError::ModuloByZero => "Деление на ноль в операции модуля"@,
        VmError::NegativePower => "Отрицательные степени не поддерживаются для целых чисел"@,
        VmError::TypeMismatch(op, a, b) => "Операция "@ + op_text(op)
            + " не поддерживается для "@ + tag_text(a) + " и "@ + tag_text(b),
        VmError::StringOpUnsupported(op) => "Неподдерживаемая операция для строк: "@ + op_text(op),
        VmError::NegTypeMismatch(t) => "Невозможно применить унарный минус к "@ + tag_text(t),
        VmError::CompareTypeMismatch(a, b) => "Невозможно сравнить "@ + tag_text(a) + " и "@
            + tag_text(b),
        VmError::ExpectedName => "Ожидалось имя переменной"@,
        VmError::IndexTypeMismatch => "Неподдерживаемая операция индексирования"@,
        VmError::ReturnUnimplemented => "Return из функций пока не реализован"@,
        VmError::NotImplemented(op) => "Опкод "@ + crate::opcode::mnemonic_of(op)
            + " пока не реализован"@,
        VmError::OutOfSteps => "Лимит шагов исчерпан"@,
    }
}

/// The globals table a list of bindings stands for: later entries override
/// earlier ones.
pub open spec fn globals_map(entries: Seq<(String, Object)>) -> Map<Seq<char>, Value>
    decreases entries.len(),
{
    if entries.len() == 0 {
        Map::empty()
    } else {
        globals_map(entries.drop_last()).insert(entries.last().0@, entries.last().1@)
    }
}

/// Entries above `j` that do not bind `name` leave its lookup to the entries
/// below.
proof fn lemma_globals_map_skip(entries: Seq<(String, Object)>, j: int, name: Seq<char>)
    requires
        0 <= j <= entries.len(),
        forall|k: int| j <= k < entries.len() ==> (#[trigger] entries[k]).0@ != name,
    ensures
        globals_map(entries).contains_key(name) == globals_map(entries.take(j)).contains_key(name),
        globals_map(entries).contains_key(name) ==> globals_map(entries)[name] == globals_map(
            entries.take(j),
        )[name],
    decreases entries.len() - j,
{
    if j < entries.len() {
        let pre = entries.take(entries.len() - 1);
        assert(entries[entries.len() - 1].0@ != name);
        assert(pre.take(j) =~= entries.take(j));
        lemma_globals_map_skip(pre, j, name);
        assert(entries.drop_last() =~= pre);
    } else {
        assert(entries.take(j) =~= entries);
    }
}

/// One call frame: the return address, the base of the frame's stack
/// region, and how many locals it holds. Defined by the design, though the
/// current interpreter loop never activates one.
#[derive(Debug, PartialEq, Clone)]
pub struct CallFrame {
    pub return_addr: usize,
    pub base_pointer: usize,
    pub num_locals: usize,
}

/// The virtual machine: the container it executes, its value stack and
/// stack pointer, its registers, its instruction pointer, its call frames,
/// and its globals table. Each instance owns all of it exclusively for one
/// run.
pub struct VM {
    instructions: Instructions,
    stack: Vec<Object>,
    sp: usize,
    registers: Vec<Object>,
    ip: usize,
    frames: Vec<CallFrame>,
    current_frame_index: usize,
    globals: Vec<(String, Object)>,
    debug_mode: bool,
}

impl VM {
    /// The machine's well-formedness: the stack stays at its fixed capacity,
    /// the stack pointer inside it, and no call frame is ever active.
    pub closed spec fn wf(&self) -> bool {
        &&& self.stack@.len() == STACK_SIZE
        &&& self.sp <= STACK_SIZE
        &&& self.frames@.len() == 0
    }

    /// The instruction bytes the machine executes.
    pub closed spec fn code(&self) -> Seq<u8> {
        self.instructions.bytes@
    }

    /// The models of the machine's constant pool.
    pub closed spec fn consts(&self) -> Seq<Value> {
        arr_view(self.instructions.constants@)
    }

    /// Whether step tracing is on.
    pub closed spec fn debugging(&self) -> bool {
        self.debug_mode
    }

    /// The mirror state the machine stands at.
    pub closed spec fn state(&self) -> MachineState {
        MachineState {
            ip: self.ip as int,
            sp: self.sp as int,
            stack: arr_view(self.stack@),
            globals: globals_map(self.globals@),
        }
    }

    /// A fresh machine over a container: empty stack, pointer at the first
    /// byte, no globals.
    pub fn new(instructions: Instructions) -> (r: VM)
        ensures
            r.wf(),
            !r.debugging(),
            r.code() == instructions.bytes@,
            r.consts() == arr_view(instructions.constants@),
            r.state() == (MachineState {
                ip: 0,
                sp: 0,
                stack: Seq::new(STACK_SIZE as nat, |i: int| Value::Null),
                globals: Map::<Seq<char>, Value>::empty(),
            }),
    {
        let mut stack: Vec<Object> = Vec::new();
        let mut i: usize = 0;
        while i < STACK_SIZE
            invariant
                i <= STACK_SIZE,
                stack@.len() == i as int,
                forall|j: int| 0 <= j < i as int ==> stack@[j] is Null,
            decreases STACK_SIZE - i,
        {
            stack.push(Object::Null);
            i = i + 1;
        }
        let mut registers: Vec<Object> = Vec::new();
        let mut k: usize = 0;
        while k < NUM_REGISTERS
            decreases NUM_REGISTERS - k,
        {
            registers.push(Object::Null);
            k = k + 1;
        }
        let r = VM {
            instructions,
            stack,
            sp: 0,
            registers,
            ip: 0,
            frames: Vec::new(),
            current_frame_index: 0,
            globals: Vec::new(),
            debug_mode: false,
        };
        proof {
            lemma_arr_view(r.stack@);
            assert forall|j: int| 0 <= j < STACK_SIZE as int implies arr_view(r.stack@)[j]
                == Value::Null by {
                assert(r.stack@[j] is Null);
            }
            assert(arr_view(r.stack@) =~= Seq::new(STACK_SIZE as nat, |i: int| Value::Null));
            assert(r.state() =~= (MachineState {
                ip: 0,
                sp: 0,
                stack: Seq::new(STACK_SIZE as nat, |i: int| Value::Null),
                globals: Map::<Seq<char>, Value>::empty(),
            }));
        }
        r
    }

    /// Turns step tracing on. Tracing never changes what a run computes.
    pub fn enable_debug_mode(&mut self)
        ensures
            final(self).debugging(),
            final(self).wf() == old(self).wf(),
            final(self).state() == old(self).state(),
            final(self).code() == old(self).code(),
            final(self).consts() == old(self).consts(),
    {
        self.debug_mode = true;
    }

    /// Turns step tracing off.
    pub fn disable_debug_mode(&mut self)
        ensures
            !final(self).debugging(),
            final(self).wf() == old(self).wf(),
            final(self).state() == old(self).state(),
            final(self).code() == old(self).code(),
            final(self).consts() == old(self).consts(),
    {
        self.debug_mode = false;
    }

    /// Pushes a value: an overflow error exactly when the stack already
    /// stands at its capacity, never before.
    fn push(&mut self, obj: Object) -> (r: Result<(), VmError>)
        requires
            old(self).wf(),
        ensures
            final(self).wf(),
            final(self).code() == old(self).code(),
            final(self).consts() == old(self).consts(),
            final(self).ip == old(self).ip,
            final(self).state().globals == old(self).state().globals,
            old(self).sp >= STACK_SIZE ==> r == Err::<(), VmError>(VmError::StackOverflow)
                && final(self).state() == old(self).state(),
            old(self).sp < STACK_SIZE ==> r is Ok && final(self).state() == (MachineState {
                sp: old(self).state().sp + 1,
                stack: old(self).state().stack.update(old(self).state().sp, obj@),
                ..old(self).state()
            }),
    {
        if self.sp >= STACK_SIZE {
            return Err(VmError::StackOverflow);
        }
        let ghost pre = self.stack@;
        self.stack[self.sp] = obj;
        proof {
            lemma_arr_view_update(pre, old(self).sp as int, self.stack@[old(self).sp as int]);
        }
        self.sp = self.sp + 1;
        Ok(())
    }

    /// Pops a value: an underflow error exactly on an empty stack.
    fn pop(&mut self) -> (r: Result<Object, VmError>)
        requires
            old(self).wf(),
        ensures
            final(self).wf(),
            final(self).code() == old(self).code(),
            final(self).consts() == old(self).consts(),
            final(self).ip == old(self).ip,
            final(self).state().globals == old(self).state().globals,
            final(self).state().stack == old(self).state().stack,
            old(self).sp == 0 ==> r == Err::<Object, VmError>(VmError::StackUnderflow)
                && final(self).state() == old(self).state(),
            old(self).sp > 0 ==> final(self).state() == (MachineState {
                sp: old(self).state().sp - 1,
                ..old(self).state()
            }) && (r matches Ok(o) && o@ == old(self).state().stack[old(self).state().sp - 1]),
    {
        if self.sp == 0 {
            return Err(VmError::StackUnderflow);
        }
        self.sp = self.sp - 1;
        proof {
            lemma_arr_view(self.stack@);
        }
        Ok(self.stack[self.sp].duplicate())
    }

    /// Reads a two-byte big-endian operand and advances the pointer past it.
    fn read_u16(&mut self) -> (r: u16)
        requires
            old(self).wf(),
            old(self).ip + 1 < old(self).code().len(),
        ensures
            final(self).wf(),
            *final(self) == (VM { ip: (old(self).ip + 2) as usize, ..*old(self) }),
            r as int == operand16(old(self).code(), old(self).ip as int)->Some_0,
    {
        let n = self.instructions.bytes.len();
        proof {
            assert(self.ip + 2 <= n);
        }
        let high = self.instructions.bytes[self.ip] as u16;
        let low = self.instructions.bytes[self.ip + 1] as u16;
        self.ip = self.ip + 2;
        high * 256 + low
    }

    /// Reads a one-byte operand and advances the pointer past it.
    fn read_u8(&mut self) -> (r: u8)
        requires
            old(self).wf(),
            old(self).ip < old(self).code().len(),
        ensures
            final(self).wf(),
            *final(self) == (VM { ip: (old(self).ip + 1) as usize, ..*old(self) }),
            r == old(self).code()[old(self).ip as int],
    {
        let n = self.instructions.bytes.len();
        proof {
            assert(self.ip + 1 <= n);
        }
        let byte = self.instructions.bytes[self.ip];
        self.ip = self.ip + 1;
        byte
    }

    /// Truthiness of a value: `Null` and `false` are falsy, everything else
    /// is truthy.
    fn is_truthy(&self, obj: &Object) -> (r: bool)
        ensures
            r == truthy(obj@),
    {
        match obj {
            Object::Null => false,
            Object::Boolean(b) => *b,
            _ => true,
        }
    }

    /// Compares two values: negative, zero or positive as `a` is below,
    /// equal to or above `b`; an error where the machine's ordering is not
    /// defined.
    fn compare_objects(&self, a: &Object, b: &Object) -> (r: Result<i32, VmError>)
        ensures
            match cmp_spec(a@, b@) {
                Ok(c) => r matches Ok(rc) && rc as int == c,
                Err(e) => r == Err::<i32, VmError>(e),
            },
    {
        match (a, b) {
            (Object::Integer(x), Object::Integer(y)) => Ok(
                if *x < *y {
                    -1
                } else if *x > *y {
                    1
                } else {
                    0
                },
            ),
            (Object::String(x), Object::String(y)) => Ok(string_cmp(x.as_str(), y.as_str())),
            _ => Err(VmError::CompareTypeMismatch(type_tag(a), type_tag(b))),
        }
    }

    /// Applies a binary operation to two values, as [`apply_op_spec`] says.
    fn apply_operation(&self, a: &Object, b: &Object, op: BinOp) -> (r: Result<Object, VmError>)
        ensures
            match apply_op_spec(a@, b@, op) {
                Ok(v) => r matches Ok(o) && o@ == v,
                Err(e) => r == Err::<Object, VmError>(e),
            },
    {
        match (a, b) {
            (Object::Integer(x), Object::Integer(y)) => match op {
                BinOp::Add => Ok(Object::Integer(x.wrapping_add(*y))),
                BinOp::Sub => Ok(Object::Integer(x.wrapping_sub(*y))),
                BinOp::Mul => Ok(Object::Integer(x.wrapping_mul(*y))),
                BinOp::Div => {
                    if *y == 0 {
                        Err(VmError::DivisionByZero)
                    } else {
                        match x.checked_div(*y) {
                            Some(q) => Ok(Object::Integer(q)),
                            None => Ok(Object::Integer(i64::MIN)),
                        }
                    }
                },
                BinOp::Mod => {
                    if *y == 0 {
                        Err(VmError::ModuloByZero)
                    } else {
                        match x.checked_rem(*y) {
                            Some(m) => Ok(Object::Integer(m)),
                            None => Ok(Object::Integer(0)),
                        }
                    }
                },
                BinOp::Pow => {
                    if *y < 0 {
                        Err(VmError::NegativePower)
                    } else {
                        Ok(Object::Integer(int_pow_wrapping(*x, low32(*y))))
                    }
                },
            },
            (Object::String(x), Object::String(y)) => match op {
                BinOp::Add => {
                    let mut joined = x.clone();
                    joined.append(y.as_str());
                    Ok(Object::String(joined))
                },
                _ => Err(VmError::StringOpUnsupported(op)),
            },
            _ => Err(VmError::TypeMismatch(op, type_tag(a), type_tag(b))),
        }
    }

    /// Executes exactly one instruction: the one the pointer stands on.
    /// `Ok(None)` continues, `Ok(Some(v))` halts the run with `v`, and an
    /// error aborts it, precisely as [`step_spec`] says.
    #[verifier::rlimit(60)]
    fn step(&mut self) -> (r: Result<Option<Object>, VmError>)
        requires
            old(self).wf(),
            old(self).ip < old(self).code().len(),
        ensures
            final(self).wf(),
            final(self).code() == old(self).code(),
            final(self).consts() == old(self).consts(),
            match step_spec(old(self).code(), old(self).consts(), old(self).state()) {
                StepOutcome::Next(st2) => r matches Ok(o) && o is None && final(self).state()
                    == st2,
                StepOutcome::Halt(v) => r matches Ok(o) && (o matches Some(obj) && obj@ == v),
                StepOutcome::Trap(e) => r == Err::<Option<Object>, VmError>(e),
            },
    {
        let ghost st0 = self.state();
        let n = self.instructions.bytes.len();
        proof {
            assert(self.ip + 1 <= n);
        }
        let b = self.instructions.bytes[self.ip];
        let opcode = match Opcode::from_byte(b) {
            Some(op) => op,
            None => {
                return Err(VmError::UnknownOpcode(b));
            },
        };
        self.ip = self.ip + 1;

        match opcode {
            Opcode::Constant => self.op_constant(Ghost(st0)),
            Opcode::Pop => {
                match self.pop() {
                    Ok(_) => Ok(None),
                    Err(e) => Err(e),
                }
            },
            Opcode::True => {
                match self.push(Object::Boolean(true)) {
                    Ok(_) => Ok(None),
                    Err(e) => Err(e),
                }
            },
            Opcode::False => {
                match self.push(Object::Boolean(false)) {
                    Ok(_) => Ok(None),
                    Err(e) => Err(e),
                }
            },
            Opcode::Null => {
                match self.push(Object::Null) {
                    Ok(_) => Ok(None),
                    Err(e) => Err(e),
                }
            },
            Opcode::Add => self.binary_op(BinOp::Add),
            Opcode::Sub => self.binary_op(BinOp::Sub),
            Opcode::Mul => self.binary_op(BinOp::Mul),
            Opcode::Div => self.binary_op(BinOp::Div),
            Opcode::Mod => self.binary_op(BinOp::Mod),
            Opcode::Pow => self.binary_op(BinOp::Pow),
            Opcode::Neg => {
                let a = match self.pop() {
                    Ok(a) => a,
                    Err(e) => {
                        return Err(e);
                    },
                };
                match a {
                    Object::Integer(num) => {
                        let negated: i64 = if num == i64::MIN {
                            i64::MIN
                        } else {
                            -num
                        };
                        match self.push(Object::Integer(negated)) {
                            Ok(_) => Ok(None),
                            Err(e) => Err(e),
                        }
                    },
                    other => Err(VmError::NegTypeMismatch(type_tag(&other))),
                }
            },
            Opcode::Not => {
                let a = match self.pop() {
                    Ok(a) => a,
                    Err(e) => {
                        return Err(e);
                    },
                };
                let result = match a {
                    Object::Boolean(b0) => Object::Boolean(!b0),
                    Object::Null => Object::Boolean(true),
                    _ => Object::Boolean(false),
                };
                match self.push(result) {
                    Ok(_) => Ok(None),
                    Err(e) => Err(e),
                }
            },
            Opcode::And => {
                let b0 = match self.pop() {
                    Ok(v) => v,
                    Err(e) => {
                        return Err(e);
                    },
                };
                let a0 = match self.pop() {
                    Ok(v) => v,
                    Err(e) => {
                        return Err(e);
                    },
                };
                let result = self.is_truthy(&a0) && self.is_truthy(&b0);
                match self.push(Object::Boolean(result)) {
                    Ok(_) => Ok(None),
                    Err(e) => Err(e),
                }
            },
            Opcode::Or => {
                let b0 = match self.pop() {
                    Ok(v) => v,
                    Err(e) => {
                        return Err(e);
                    },
                };
                let a0 = match self.pop() {
                    Ok(v) => v,
                    Err(e) => {
                        return Err(e);
                    },
                };
                let result = self.is_truthy(&a0) || self.is_truthy(&b0);
                match self.push(Object::Boolean(result)) {
                    Ok(_) => Ok(None),
                    Err(e) => Err(e),
                }
            },
            Opcode::Equal => {
                let b0 = match self.pop() {
                    Ok(v) => v,
                    Err(e) => {
                        return Err(e);
                    },
                };
                let a0 = match self.pop() {
                    Ok(v) => v,
                    Err(e) => {
                        return Err(e);
                    },
                };
                let eq = object_eq(&a0, &b0);
                match self.push(Object::Boolean(eq)) {
                    Ok(_) => Ok(None),
                    Err(e) => Err(e),
                }
            },
            Opcode::NotEqual => {
                let b0 = match self.pop() {
                    Ok(v) => v,
                    Err(e) => {
                        return Err(e);
                    },
                };
                let a0 = match self.pop() {
                    Ok(v) => v,
                    Err(e) => {
                        return Err(e);
                    },
                };
                let eq = object_eq(&a0, &b0);
                match self.push(Object::Boolean(!eq)) {
                    Ok(_) => Ok(None),
                    Err(e) => Err(e),
                }
            },
            Opcode::GreaterThan => self.compare_op(Opcode::GreaterThan),
            Opcode::LessThan => self.compare_op(Opcode::LessThan),
            Opcode::GreaterThanOrEqual => self.compare_op(Opcode::GreaterThanOrEqual),
            Opcode::LessThanOrEqual => self.compare_op(Opcode::LessThanOrEqual),
            Opcode::Jump => {
                if self.instructions.bytes.len() - self.ip < 2 {
                    return Err(VmError::TruncatedOperand);
                }
                let pos = self.read_u16() as usize;
                self.ip = pos;
                Ok(None)
            },
            Opcode::JumpIfFalse => {
                if self.instructions.bytes.len() - self.ip < 2 {
                    return Err(VmError::TruncatedOperand);
                }
                let pos = self.read_u16() as usize;
                let condition = match self.pop() {
                    Ok(v) => v,
                    Err(e) => {
                        return Err(e);
                    },
                };
                if !self.is_truthy(&condition) {
                    self.ip = pos;
                }
                Ok(None)
            },
            Opcode::JumpIfTrue => {
                if self.instructions.bytes.len() - self.ip < 2 {
                    return Err(VmError::TruncatedOperand);
                }
                let pos = self.read_u16() as usize;
                let condition = match self.pop() {
                    Ok(v) => v,
                    Err(e) => {
                        return Err(e);
                    },
                };
                if self.is_truthy(&condition) {
                    self.ip = pos;
                }
                Ok(None)
            },
            Opcode::Return => {
                if self.frames.is_empty() {
                    proof {
                        lemma_arr_view(self.stack@);
                    }
                    let result = if self.sp > 0 {
                        self.stack[self.sp - 1].duplicate()
                    } else {
                        Object::Null
                    };
                    return Ok(Some(result));
                }
                // Unreachable while no frame is ever pushed: returns from
                // active frames are a defined but unrealized part of the design.
                Err(VmError::ReturnUnimplemented)
            },
            Opcode::GetGlobal => self.op_get_global(Ghost(st0)),
            Opcode::SetGlobal => self.op_set_global(Ghost(st0)),
            Opcode::GetLocal => self.op_get_local(Ghost(st0)),
            Opcode::SetLocal => self.op_set_local(Ghost(st0)),
            Opcode::Array => self.op_array(Ghost(st0)),
            Opcode::Index => self.op_index(Ghost(st0)),
            Opcode::NoOp => Ok(None),
            _ => Err(VmError::NotImplemented(opcode)),
        }
    }

    /// The `Constant` arm of [`Self::step`], entered with the pointer
    /// already past the opcode byte.
    fn op_constant(&mut self, Ghost(st): Ghost<MachineState>) -> (r: Result<Option<Object>, VmError>)
        requires
            old(self).wf(),
            old(self).ip >= 1,
            st == (MachineState { ip: old(self).ip - 1, ..old(self).state() }),
            st.ip < old(self).code().len(),
            opcode_of_byte(old(self).code()[st.ip]) == Some(Opcode::Constant),
        ensures
            final(self).wf(),
            final(self).code() == old(self).code(),
            final(self).consts() == old(self).consts(),
            match step_spec(old(self).code(), old(self).consts(), st) {
                StepOutcome::Next(st2) => r matches Ok(o) && o is None && final(self).state()
                    == st2,
                StepOutcome::Halt(v) => r matches Ok(o) && (o matches Some(obj) && obj@ == v),
                StepOutcome::Trap(e) => r == Err::<Option<Object>, VmError>(e),
            },
    {
        if self.instructions.bytes.len() - self.ip < 2 {
            return Err(VmError::TruncatedOperand);
        }
        let const_index = self.read_u16() as usize;
        proof {
            lemma_arr_view(self.instructions.constants@);
        }
        let constant = match self.instructions.get_constant(const_index) {
            Some(c) => c.duplicate(),
            None => {
                return Err(VmError::MissingConstant(low16(const_index)));
            },
        };
        match self.push(constant) {
            Ok(_) => Ok(None),
            Err(e) => Err(e),
        }
    }

    /// The `GetGlobal` arm of [`Self::step`], entered with the pointer
    /// already past the opcode byte.
    fn op_get_global(&mut self, Ghost(st): Ghost<MachineState>) -> (r: Result<
        Option<Object>,
        VmError,
    >)
        requires
            old(self).wf(),
            old(self).ip >= 1,
            st == (MachineState { ip: old(self).ip - 1, ..old(self).state() }),
            st.ip < old(self).code().len(),
            opcode_of_byte(old(self).code()[st.ip]) == Some(Opcode::GetGlobal),
        ensures
            final(self).wf(),
            final(self).code() == old(self).code(),
            final(self).consts() == old(self).consts(),
            match step_spec(old(self).code(), old(self).consts(), st) {
                StepOutcome::Next(st2) => r matches Ok(o) && o is None && final(self).state()
                    == st2,
                StepOutcome::Halt(v) => r matches Ok(o) && (o matches Some(obj) && obj@ == v),
                StepOutcome::Trap(e) => r == Err::<Option<Object>, VmError>(e),
            },
    {
        if self.instructions.bytes.len() - self.ip < 2 {
            return Err(VmError::TruncatedOperand);
        }
        let name_idx = self.read_u16() as usize;
        proof {
            lemma_arr_view(self.instructions.constants@);
        }
        if name_idx >= self.instructions.constants.len() {
            return Err(VmError::MissingConstant(low16(name_idx)));
        }
        let value = match &self.instructions.constants[name_idx] {
            Object::String(var_name) => self.lookup_global_value(var_name.as_str()),
            _ => {
                return Err(VmError::ExpectedName);
            },
        };
        match self.push(value) {
            Ok(_) => Ok(None),
            Err(e) => Err(e),
        }
    }

    /// The `SetGlobal` arm of [`Self::step`], entered with the pointer
    /// already past the opcode byte.
    fn op_set_global(&mut self, Ghost(st): Ghost<MachineState>) -> (r: Result<
        Option<Object>,
        VmError,
    >)
        requires
            old(self).wf(),
            old(self).ip >= 1,
            st == (MachineState { ip: old(self).ip - 1, ..old(self).state() }),
            st.ip < old(self).code().len(),
            opcode_of_byte(old(self).code()[st.ip]) == Some(Opcode::SetGlobal),
        ensures
            final(self).wf(),
            final(self).code() == old(self).code(),
            final(self).consts() == old(self).consts(),
            match step_spec(old(self).code(), old(self).consts(), st) {
                StepOutcome::Next(st2) => r matches Ok(o) && o is None && final(self).state()
                    == st2,
                StepOutcome::Halt(v) => r matches Ok(o) && (o matches Some(obj) && obj@ == v),
                StepOutcome::Trap(e) => r == Err::<Option<Object>, VmError>(e),
            },
    {
        if self.instructions.bytes.len() - self.ip < 2 {
            return Err(VmError::TruncatedOperand);
        }
        let name_idx = self.read_u16() as usize;
        proof {
            lemma_arr_view(self.instructions.constants@);
        }
        let name = match self.instructions.get_constant(name_idx) {
            Some(c) => c.duplicate(),
            None => {
                return Err(VmError::MissingConstant(low16(name_idx)));
            },
        };
        let value = match self.pop() {
            Ok(v) => v,
            Err(e) => {
                return Err(e);
            },
        };
        match name {
            Object::String(var_name) => {
                let ghost entries = self.globals@;
                self.globals.push((var_name, value));
                proof {
                    assert(self.globals@.drop_last() =~= entries);
                }
                Ok(None)
            },
            _ => Err(VmError::ExpectedName),
        }
    }

    /// The `GetLocal` arm of [`Self::step`], entered with the pointer
    /// already past the opcode byte.
    fn op_get_local(&mut self, Ghost(st): Ghost<MachineState>) -> (r: Result<
        Option<Object>,
        VmError,
    >)
        requires
            old(self).wf(),
            old(self).ip >= 1,
            st == (MachineState { ip: old(self).ip - 1, ..old(self).state() }),
            st.ip < old(self).code().len(),
            opcode_of_byte(old(self).code()[st.ip]) == Some(Opcode::GetLocal),
        ensures
            final(self).wf(),
            final(self).code() == old(self).code(),
            final(self).consts() == old(self).consts(),
            match step_spec(old(self).code(), old(self).consts(), st) {
                StepOutcome::Next(st2) => r matches Ok(o) && o is None && final(self).state()
                    == st2,
                StepOutcome::Halt(v) => r matches Ok(o) && (o matches Some(obj) && obj@ == v),
                StepOutcome::Trap(e) => r == Err::<Option<Object>, VmError>(e),
            },
    {
        if self.instructions.bytes.len() - self.ip < 1 {
            return Err(VmError::TruncatedOperand);
        }
        let idx = self.read_u8() as usize;
        proof {
            lemma_arr_view(self.stack@);
        }
        let value = self.stack[idx].duplicate();
        match self.push(value) {
            Ok(_) => Ok(None),
            Err(e) => Err(e),
        }
    }

    /// The `SetLocal` arm of [`Self::step`], entered with the pointer
    /// already past the opcode byte.
    fn op_set_local(&mut self, Ghost(st): Ghost<MachineState>) -> (r: Result<
        Option<Object>,
        VmError,
    >)
        requires
            old(self).wf(),
            old(self).ip >= 1,
            st == (MachineState { ip: old(self).ip - 1, ..old(self).state() }),
            st.ip < old(self).code().len(),
            opcode_of_byte(old(self).code()[st.ip]) == Some(Opcode::SetLocal),
        ensures
            final(self).wf(),
            final(self).code() == old(self).code(),
            final(self).consts() == old(self).consts(),
            match step_spec(old(self).code(), old(self).consts(), st) {
                StepOutcome::Next(st2) => r matches Ok(o) && o is None && final(self).state()
                    == st2,
                StepOutcome::Halt(v) => r matches Ok(o) && (o matches Some(obj) && obj@ == v),
                StepOutcome::Trap(e) => r == Err::<Option<Object>, VmError>(e),
            },
    {
        if self.instructions.bytes.len() - self.ip < 1 {
            return Err(VmError::TruncatedOperand);
        }
        let idx = self.read_u8() as usize;
        let value = match self.pop() {
            Ok(v) => v,
            Err(e) => {
                return Err(e);
            },
        };
        let ghost pre = self.stack@;
        self.stack[idx] = value;
        proof {
            lemma_arr_view_update(pre, idx as int, self.stack@[idx as int]);
        }
        Ok(None)
    }

    /// The `Array` arm of [`Self::step`], entered with the pointer already
    /// past the opcode byte.
    fn op_array(&mut self, Ghost(st): Ghost<MachineState>) -> (r: Result<Option<Object>, VmError>)
        requires
            old(self).wf(),
            old(self).ip >= 1,
            st == (MachineState { ip: old(self).ip - 1, ..old(self).state() }),
            st.ip < old(self).code().len(),
            opcode_of_byte(old(self).code()[st.ip]) == Some(Opcode::Array),
        ensures
            final(self).wf(),
            final(self).code() == old(self).code(),
            final(self).consts() == old(self).consts(),
            match step_spec(old(self).code(), old(self).consts(), st) {
                StepOutcome::Next(st2) => r matches Ok(o) && o is None && final(self).state()
                    == st2,
                StepOutcome::Halt(v) => r matches Ok(o) && (o matches Some(obj) && obj@ == v),
                StepOutcome::Trap(e) => r == Err::<Option<Object>, VmError>(e),
            },
    {
        if self.instructions.bytes.len() - self.ip < 2 {
            return Err(VmError::TruncatedOperand);
        }
        let len = self.read_u16() as usize;
        if len > self.sp {
            return Err(VmError::StackUnderflow);
        }
        let base = self.sp - len;
        let mut elements: Vec<Object> = Vec::new();
        proof {
            lemma_arr_view(self.stack@);
            assert(arr_view(elements@) =~= arr_view(self.stack@).subrange(
                base as int,
                base as int,
            ));
        }
        let mut i: usize = 0;
        while i < len
            invariant
                i <= len,
                self.wf(),
                base + len == self.sp,
                arr_view(elements@) == arr_view(self.stack@).subrange(base as int, base + i),
            decreases len - i,
        {
            proof {
                lemma_arr_view(self.stack@);
                lemma_arr_view_push(elements@, self.stack@[base + i]);
            }
            let element = self.stack[base + i].duplicate();
            proof {
                lemma_arr_view_push(elements@, element);
                assert(arr_view(self.stack@).subrange(base as int, base + i).push(element@)
                    =~= arr_view(self.stack@).subrange(base as int, base + i + 1));
            }
            elements.push(element);
            i = i + 1;
        }
        proof {
            assert(arr_view(elements@) == arr_view(self.stack@).subrange(base as int, base + len));
        }
        self.sp = base;
        match self.push(Object::Array(elements)) {
            Ok(_) => Ok(None),
            Err(e) => Err(e),
        }
    }

    /// The `Index` arm of [`Self::step`], entered with the pointer already
    /// past the opcode byte.
    fn op_index(&mut self, Ghost(st): Ghost<MachineState>) -> (r: Result<Option<Object>, VmError>)
        requires
            old(self).wf(),
            old(self).ip >= 1,
            st == (MachineState { ip: old(self).ip - 1, ..old(self).state() }),
            st.ip < old(self).code().len(),
            opcode_of_byte(old(self).code()[st.ip]) == Some(Opcode::Index),
        ensures
            final(self).wf(),
            final(self).code() == old(self).code(),
            final(self).consts() == old(self).consts(),
            match step_spec(old(self).code(), old(self).consts(), st) {
                StepOutcome::Next(st2) => r matches Ok(o) && o is None && final(self).state()
                    == st2,
                StepOutcome::Halt(v) => r matches Ok(o) && (o matches Some(obj) && obj@ == v),
                StepOutcome::Trap(e) => r == Err::<Option<Object>, VmError>(e),
            },
    {
        let index = match self.pop() {
            Ok(v) => v,
            Err(e) => {
                return Err(e);
            },
        };
        let target = match self.pop() {
            Ok(v) => v,
            Err(e) => {
                return Err(e);
            },
        };
        match (target, index) {
            (Object::Array(arr), Object::Integer(idx)) => {
                proof {
                    lemma_arr_view(arr@);
                }
                let value = if idx < 0 || idx as u64 >= arr.len() as u64 {
                    Object::Null
                } else {
                    arr[idx as usize].duplicate()
                };
                match self.push(value) {
                    Ok(_) => Ok(None),
                    Err(e) => Err(e),
                }
            },
            _ => Err(VmError::IndexTypeMismatch),
        }
    }

    /// Pops two operands, applies the operation, and pushes the result.
    fn binary_op(&mut self, op: BinOp) -> (r: Result<Option<Object>, VmError>)
        requires
            old(self).wf(),
        ensures
            final(self).wf(),
            final(self).code() == old(self).code(),
            final(self).consts() == old(self).consts(),
            match binary_step(old(self).state(), old(self).ip as int, op) {
                StepOutcome::Next(st2) => r matches Ok(o) && o is None && final(self).state()
                    == st2,
                StepOutcome::Halt(v) => false,
                StepOutcome::Trap(e) => r == Err::<Option<Object>, VmError>(e),
            },
    {
        let b = match self.pop() {
            Ok(v) => v,
            Err(e) => {
                return Err(e);
            },
        };
        let a = match self.pop() {
            Ok(v) => v,
            Err(e) => {
                return Err(e);
            },
        };
        let result = match self.apply_operation(&a, &b, op) {
            Ok(v) => v,
            Err(e) => {
                return Err(e);
            },
        };
        match self.push(result) {
            Ok(_) => Ok(None),
            Err(e) => Err(e),
        }
    }

    /// Pops two operands, compares them, and pushes the boolean the
    /// comparison opcode asks for.
    fn compare_op(&mut self, which: Opcode) -> (r: Result<Option<Object>, VmError>)
        requires
            old(self).wf(),
            which == Opcode::GreaterThan || which == Opcode::LessThan || which
                == Opcode::GreaterThanOrEqual || which == Opcode::LessThanOrEqual,
        ensures
            final(self).wf(),
            final(self).code() == old(self).code(),
            final(self).consts() == old(self).consts(),
            match cmp_step(old(self).state(), old(self).ip as int, which) {
                StepOutcome::Next(st2) => r matches Ok(o) && o is None && final(self).state()
                    == st2,
                StepOutcome::Halt(v) => false,
                StepOutcome::Trap(e) => r == Err::<Option<Object>, VmError>(e),
            },
    {
        let b = match self.pop() {
            Ok(v) => v,
            Err(e) => {
                return Err(e);
            },
        };
        let a = match self.pop() {
            Ok(v) => v,
            Err(e) => {
                return Err(e);
            },
        };
        let c = match self.compare_objects(&a, &b) {
            Ok(c) => c,
            Err(e) => {
                return Err(e);
            },
        };
        let keep: bool = match which {
            Opcode::GreaterThan => c > 0,
            Opcode::LessThan => c < 0,
            Opcode::GreaterThanOrEqual => c >= 0,
            _ => c <= 0,
        };
        match self.push(Object::Boolean(keep)) {
            Ok(_) => Ok(None),
            Err(e) => Err(e),
        }
    }

    /// The value bound to a global name: `Null` when the name is unbound.
    fn lookup_global_value(&self, name: &str) -> (r: Object)
        ensures
            self.state().globals.contains_key(name@) ==> r@ == self.state().globals[name@],
            !self.state().globals.contains_key(name@) ==> r@ == Value::Null,
    {
        let mut j: usize = self.globals.len();
        while j > 0
            invariant
                j <= self.globals@.len(),
                forall|k: int|
                    j as int <= k < self.globals@.len() ==> (#[trigger] self.globals@[k]).0@
                        != name@,
            decreases j,
        {
            j = j - 1;
            if str_eq(self.globals[j].0.as_str(), name) {
                proof {
                    lemma_globals_map_skip(self.globals@, j + 1, name@);
                    assert(self.globals@.take(j + 1).drop_last() =~= self.globals@.take(j as int));
                    assert(self.globals@.take(j + 1).last() == self.globals@[j as int]);
                }
                return self.globals[j].1.duplicate();
            }
        }
        proof {
            lemma_globals_map_skip(self.globals@, 0, name@);
            assert(self.globals@.take(0) =~= Seq::<(String, Object)>::empty());
        }
        Object::Null
    }

    /// Runs the loaded bytecode from the current pointer to completion: the
    /// final value, or the first runtime error. Exactly [`run_spec`], under
    /// the run's step budget.
    pub fn run(&mut self) -> (r: Result<Object, String>)
        requires
            old(self).wf(),
        ensures
            final(self).wf(),
            match run_spec(
                old(self).code(),
                old(self).consts(),
                old(self).state(),
                RUN_BUDGET as nat,
            ) {
                Ok(v) => r matches Ok(obj) && obj@ == v,
                Err(e) => r matches Err(m) && m@ == msg_of(e),
            },
    {
        let mut fuel: u64 = RUN_BUDGET;
        while self.ip < self.instructions.bytes.len()
            invariant
                self.wf(),
                self.code() == old(self).code(),
                self.consts() == old(self).consts(),
                run_spec(self.code(), self.consts(), self.state(), fuel as nat) == run_spec(
                    old(self).code(),
                    old(self).consts(),
                    old(self).state(),
                    RUN_BUDGET as nat,
                ),
            decreases fuel,
        {
            if fuel == 0 {
                return Err(error_message(&VmError::OutOfSteps));
            }
            match self.step() {
                Ok(None) => {},
                Ok(Some(result)) => {
                    return Ok(result);
                },
                Err(e) => {
                    return Err(error_message(&e));
                },
            }
            fuel = fuel - 1;
        }
        proof {
            lemma_arr_view(self.stack@);
        }
        if self.sp > 0 {
            Ok(self.stack[self.sp - 1].duplicate())
        } else {
            Ok(Object::Null)
        }
    }
}

/// The model of the `j`-th element of a pool of objects.
pub open spec fn obj_view_of(objects: Seq<Object>, j: int) -> Value {
    objects[j]@
}

/// The type of a runtime value, for an error report.
fn type_tag(obj: &Object) -> (t: TypeTag)
    ensures
        t == value_tag(obj@),
{
    match obj {
        Object::Integer(_) => TypeTag::Integer,
        Object::Boolean(_) => TypeTag::Boolean,
        Object::Null => TypeTag::Null,
        Object::String(_) => TypeTag::Str,
        Object::Array(_) => TypeTag::Array,
    }
}

/// The display name of a type, as [`tag_text`] says.
fn tag_str(t: TypeTag) -> (r: &'static str)
    ensures
        r@ == tag_text(t),
{
    match t {
        TypeTag::Integer => "INTEGER",
        TypeTag::Boolean => "BOOLEAN",
        TypeTag::Null => "NULL",
        TypeTag::Str => "STRING",
        TypeTag::Array => "ARRAY",
    }
}

/// The source text of a binary operation, as [`op_text`] says.
fn op_str(op: BinOp) -> (r: &'static str)
    ensures
        r@ == op_text(op),
{
    match op {
        BinOp::Add => "+",
        BinOp::Sub => "-",
        BinOp::Mul => "*",
        BinOp::Div => "/",
        BinOp::Mod => "%",
        BinOp::Pow => "**",
    }
}

/// The message a run reports a failure with, exactly [`msg_of`].
pub fn error_message(e: &VmError) -> (r: String)
    ensures
        r@ == msg_of(*e),
{
    match e {
        VmError::UnknownOpcode(b) => {
            let mut out = String::from_str("Неизвестный опкод: ");
            let byte_text = u64_to_string(*b as u64);
            out.append(byte_text.as_str());
            out
        },
        VmError::TruncatedOperand => String::from_str("Недостаточно байтов для чтения операнда"),
        VmError::MissingConstant(idx) => {
            let mut out = String::from_str("Константа с индексом ");
            let index_text = u64_to_string(*idx as u64);
            out.append(index_text.as_str());
            out.append(" не найдена");
            proof {
                assert(out@ =~= msg_of(*e));
            }
            out
        },
        VmError::StackOverflow => String::from_str("Переполнение стека"),
        VmError::StackUnderflow => String::from_str("Underflow стека"),
        VmError::DivisionByZero => String::from_str("Деление на ноль"),
        VmError::ModuloByZero => String::from_str("Деление на ноль в операции модуля"),
        VmError::NegativePower => String::from_str(
            "Отрицательные степени не поддерживаются для целых чисел",
        ),
        VmError::TypeMismatch(op, a, b) => {
            let mut out = String::from_str("Операция ");
            out.append(op_str(*op));
            out.append(" не поддерживается для ");
            out.append(tag_str(*a));
            out.append(" и ");
            out.append(tag_str(*b));
            proof {
                assert(out@ =~= msg_of(*e));
            }
            out
        },
        VmError::StringOpUnsupported(op) => {
            let mut out = String::from_str("Неподдерживаемая операция для строк: ");
            out.append(op_str(*op));
            out
        },
        VmError::NegTypeMismatch(t) => {
            let mut out = String::from_str("Невозможно применить унарный минус к ");
            out.append(tag_str(*t));
            out
        },
        VmError::CompareTypeMismatch(a, b) => {
            let mut out = String::from_str("Невозможно сравнить ");
            out.append(tag_str(*a));
            out.append(" и ");
            out.append(tag_str(*b));
            proof {
                assert(out@ =~= msg_of(*e));
            }
            out
        },
        VmError::ExpectedName => String::from_str("Ожидалось имя переменной"),
        VmError::IndexTypeMismatch => String::from_str("Неподдерживаемая операция индексирования"),
        VmError::ReturnUnimplemented => String::from_str("Return из функций пока не реализован"),
        VmError::NotImplemented(op) => {
            let mut out = String::from_str("Опкод ");
            out.append(op.mnemonic());
            out.append(" пока не реализован");
            proof {
                assert(out@ =~= msg_of(*e));
            }
            out
        },
        VmError::OutOfSteps => String::from_str("Лимит шагов исчерпан"),
    }
}

/// The low thirty-two bits of a non-negative exponent, as the power
/// operation receives it.
fn low32(y: i64) -> (r: u32)
    requires
        y >= 0,
    ensures
        r as int == y as u64 % 0x1_0000_0000,
{
    let wide: u64 = y as u64;
    proof {
        assert((wide as u32) as int == wide % 0x1_0000_0000) by (bit_vector);
    }
    #[verifier::truncate] (wide as u32)
}

/// The low sixteen bits of an index, for an error report.
fn low16(x: usize) -> (r: u16)
    ensures
        r == (x % 0x10000) as u16,
{
    let wide: u64 = x as u64;
    proof {
        assert((wide as u16) == ((wide % 0x10000) as u16) && wide % 0x10000 < 0x10000)
            by (bit_vector);
        assert(wide % 0x10000 == x % 0x10000);
    }
    #[verifier::truncate] (wide as u16)
}

/// Exponentiation by repeated wrapping multiplication, as [`pow_wrap`] says.
fn int_pow_wrapping(base: i64, exp: u32) -> (r: i64)
    ensures
        r == pow_wrap(base, exp as nat),
{
    let mut acc: i64 = 1;
    let mut i: u32 = 0;
    while i < exp
        invariant
            i <= exp,
            acc == pow_wrap(base, i as nat),
        decreases exp - i,
    {
        acc = acc.wrapping_mul(base);
        i = i + 1;
    }
    acc
}

/// Lexicographic string comparison, as [`lex_cmp`] says.
fn string_cmp(x: &str, y: &str) -> (r: i32)
    ensures
        r as int == lex_cmp(x@, y@),
{
    let n = x.unicode_len();
    let m = y.unicode_len();
    proof {
        assert(x@.skip(0) =~= x@);
        assert(y@.skip(0) =~= y@);
    }
    let mut i: usize = 0;
    while i < n && i < m
        invariant
            i <= n,
            i <= m,
            n == x@.len(),
            m == y@.len(),
            lex_cmp(x@, y@) == lex_cmp(x@.skip(i as int), y@.skip(i as int)),
        decreases n - i,
    {
        let cx = x.get_char(i) as u32;
        let cy = y.get_char(i) as u32;
        if cx < cy {
            return -1;
        }
        if cx > cy {
            return 1;
        }
        proof {
            assert(x@.skip(i as int).skip(1) =~= x@.skip(i + 1));
            assert(y@.skip(i as int).skip(1) =~= y@.skip(i + 1));
        }
        i = i + 1;
    }
    proof {
        assert(x@.skip(i as int).len() == n - i);
        assert(y@.skip(i as int).len() == m - i);
    }
    if n == m {
        0
    } else if n < m {
        -1
    } else {
        1
    }
}

/// Arithmetic failure law: division and modulo by zero are distinct explicit
/// errors, each reported under its own message, and for every non-zero
/// divisor the operation succeeds.
pub proof fn lemma_division_modulo_by_zero(x: i64, y: i64)
    ensures
        apply_op_spec(Value::Integer(x), Value::Integer(0), BinOp::Div) == Err::<Value, VmError>(
            VmError::DivisionByZero,
        ),
        apply_op_spec(Value::Integer(x), Value::Integer(0), BinOp::Mod) == Err::<Value, VmError>(
            VmError::ModuloByZero,
        ),
        msg_of(VmError::DivisionByZero) == "Деление на ноль"@,
        msg_of(VmError::ModuloByZero) == "Деление на ноль в операции модуля"@,
        y != 0 ==> apply_op_spec(Value::Integer(x), Value::Integer(y), BinOp::Div) is Ok,
        y != 0 ==> apply_op_spec(Value::Integer(x), Value::Integer(y), BinOp::Mod) is Ok,
{
}

/// Capacity law: a push fails with a stack overflow exactly at the capacity
/// boundary, never before.
pub proof fn lemma_push_capacity_boundary(st: MachineState, ip2: int, v: Value)
    ensures
        st.sp < STACK_SIZE ==> push_spec(st, ip2, v) is Next,
        st.sp >= STACK_SIZE ==> push_spec(st, ip2, v) == StepOutcome::Trap(VmError::StackOverflow),
{
}

/// Capacity law: popping fails with a stack underflow exactly on an empty
/// stack.
pub proof fn lemma_pop_underflow_boundary(code: Seq<u8>, consts: Seq<Value>, st: MachineState)
    requires
        0 <= st.ip < code.len(),
        opcode_of_byte(code[st.ip]) == Some(Opcode::Pop),
    ensures
        st.sp == 0 <==> step_spec(code, consts, st) == StepOutcome::Trap(VmError::StackUnderflow),
        st.sp > 0 ==> step_spec(code, consts, st) is Next,
{
}

/// Global round trip, the binding half: executing `SetGlobal` whose operand
/// names the string constant `name` binds `name` to the value at the top of
/// the stack.
pub proof fn lemma_set_global_binds(
    code: Seq<u8>,
    consts: Seq<Value>,
    st: MachineState,
    idx: int,
    name: Seq<char>,
)
    requires
        0 <= st.ip < code.len(),
        opcode_of_byte(code[st.ip]) == Some(Opcode::SetGlobal),
        operand16(code, st.ip + 1) == Some(idx),
        0 <= idx < consts.len(),
        consts[idx] == Value::Str(name),
        st.sp > 0,
    ensures
        step_spec(code, consts, st) matches StepOutcome::Next(st2) && st2.globals.contains_key(
            name,
        ) && st2.globals[name] == st.stack[st.sp - 1],
{
}

/// Global round trip, the preservation half: any step that continues and is
/// no `SetGlobal` leaves the whole globals table alone, and a `SetGlobal` of
/// another name leaves this one's binding alone.
pub proof fn lemma_globals_survive_step(
    code: Seq<u8>,
    consts: Seq<Value>,
    st: MachineState,
    name: Seq<char>,
)
    requires
        0 <= st.ip < code.len(),
        step_spec(code, consts, st) is Next,
        opcode_of_byte(code[st.ip]) == Some(Opcode::SetGlobal) ==> (operand16(code, st.ip + 1)
            matches Some(idx) && 0 <= idx < consts.len() && consts[idx] is Str && consts[idx]->Str_0
            != name),
    ensures
        step_spec(code, consts, st)->Next_0.globals.contains_key(name) == st.globals.contains_key(
            name,
        ),
        st.globals.contains_key(name) ==> step_spec(code, consts, st)->Next_0.globals[name]
            == st.globals[name],
{
}

/// Global round trip, the reading half: executing `GetGlobal` whose operand
/// names the string constant `name` pushes exactly the value bound to
/// `name`.
pub proof fn lemma_get_global_reads(
    code: Seq<u8>,
    consts: Seq<Value>,
    st: MachineState,
    idx: int,
    name: Seq<char>,
)
    requires
        0 <= st.ip < code.len(),
        opcode_of_byte(code[st.ip]) == Some(Opcode::GetGlobal),
        operand16(code, st.ip + 1) == Some(idx),
        0 <= idx < consts.len(),
        consts[idx] == Value::Str(name),
        st.globals.contains_key(name),
        0 <= st.sp < STACK_SIZE,
        st.stack.len() == STACK_SIZE,
    ensures
        step_spec(code, consts, st) matches StepOutcome::Next(st2) && st2.sp == st.sp + 1
            && st2.stack[st.sp] == st.globals[name],
{
}

} // verus!
