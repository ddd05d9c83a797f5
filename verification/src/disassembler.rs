//! The disassembler: a pure function from a bytecode container to readable
//! text, one line per instruction, resting only on the instruction set and
//! the container's defensive decode primitives.
//!
//! The exact output is fixed by [`disasm_spec`]: a header, a `CONSTANTS
//! POOL` section exactly when the pool is non-empty with one `[i] value`
//! line per constant in pool order, then an `INSTRUCTIONS` section with one
//! `OFFSET MNEMONIC OPERAND` line per decoded instruction, the offset
//! zero-padded to four decimal digits; a byte that is no valid tag renders
//! as `OFFSET UNKNOWN_OPCODE (byte)` and the scan advances one byte.

use vstd::prelude::*;
use vstd::string::StrSliceExecFns;
use vstd::string::StringExecFns;

use crate::instructions::Instructions;
use crate::instructions::decode_operands;
use crate::instructions::lemma_decode_operands_bounds;
use crate::object::Object;
use crate::object::Value;
use crate::object::arr_view;
use crate::object::lemma_arr_view;
use crate::object::lemma_array_element_decreases;
use crate::opcode::mnemonic_of;
use crate::opcode::opcode_of_byte;
use crate::opcode::widths_of;
use crate::strutil::dec_digits;
use crate::strutil::dec_int;
use crate::strutil::i64_to_string;
use crate::strutil::u64_to_string;

verus! {

broadcast use vstd::std_specs::vec::group_vec_axioms, vstd::seq::group_seq_axioms;

/// The rendering of one value in the constants listing: integers in decimal,
/// booleans and null as keywords, strings as their text, arrays in brackets.
pub open spec fn obj_text(v: Value) -> Seq<char>
    decreases v, 0int,
        via obj_text_decreases
{
    match v {
        Value::Integer(i) => dec_int(i as int),
        Value::Boolean(b) => if b {
            "true"@
        } else {
            "false"@
        },
        Value::Null => "null"@,
        Value::Str(s) => s,
        Value::Array(els) => "["@ + array_items_text(els, 0) + "]"@,
    }
}

/// The renderings of an array's items from index `j` on, separated by `", "`.
pub open spec fn array_items_text(els: Seq<Value>, j: int) -> Seq<char>
    decreases els, els.len() - j,
        via array_items_text_decreases
{
    if j < 0 || j >= els.len() {
        Seq::empty()
    } else {
        (if j > 0 {
            ", "@
        } else {
            Seq::empty()
        }) + obj_text(els[j]) + array_items_text(els, j + 1)
    }
}

#[via_fn]
proof fn obj_text_decreases(v: Value) {
    if let Value::Array(els) = v {
        assert(els == v->Array_0);
        assert(decreases_to!(v => v->Array_0));
    }
}

#[via_fn]
proof fn array_items_text_decreases(els: Seq<Value>, j: int) {
    if 0 <= j < els.len() {
        assert(decreases_to!(els => els[j]));
    }
}

/// A run of `k` zero characters.
pub open spec fn zeros(k: nat) -> Seq<char> {
    Seq::new(k, |i: int| '0')
}

/// A number in decimal, zero-padded on the left to at least four digits.
pub open spec fn pad4(n: nat) -> Seq<char> {
    if dec_digits(n).len() >= 4 {
        dec_digits(n)
    } else {
        zeros((4 - dec_digits(n).len()) as nat) + dec_digits(n)
    }
}

/// The `[i] value` lines of the constants listing from index `j` on.
pub open spec fn constants_text(consts: Seq<Value>, j: int) -> Seq<char>
    decreases consts.len() - j,
{
    if j < 0 || j >= consts.len() {
        Seq::empty()
    } else {
        "["@ + dec_digits(j as nat) + "] "@ + obj_text(consts[j]) + "\n"@ + constants_text(
            consts,
            j + 1,
        )
    }
}

/// The decimal operands of one instruction line from index `k` on, each
/// preceded by one space.
pub open spec fn operands_text(operands: Seq<u16>, k: int) -> Seq<char>
    decreases operands.len() - k,
{
    if k < 0 || k >= operands.len() {
        Seq::empty()
    } else {
        " "@ + dec_digits(operands[k] as nat) + operands_text(operands, k + 1)
    }
}

/// The instruction lines from offset `i` on: a decodable opcode renders as
/// its padded offset, mnemonic and operands and the scan advances past them;
/// an undecodable byte renders as `UNKNOWN_OPCODE (byte)` and the scan
/// advances one byte.
pub open spec fn instruction_lines(code: Seq<u8>, i: int) -> Seq<char>
    decreases code.len() - i,
        via instruction_lines_decreases
{
    if i < 0 || i >= code.len() {
        Seq::empty()
    } else {
        match opcode_of_byte(code[i]) {
            None => pad4(i as nat) + " UNKNOWN_OPCODE ("@ + dec_digits(code[i] as nat) + ")\n"@
                + instruction_lines(code, i + 1),
            Some(op) => {
                let decoded = decode_operands(widths_of(op), code, i + 1);
                pad4(i as nat) + " "@ + mnemonic_of(op) + operands_text(decoded.0, 0) + "\n"@
                    + instruction_lines(code, i + 1 + decoded.1)
            },
        }
    }
}

#[via_fn]
proof fn instruction_lines_decreases(code: Seq<u8>, i: int) {
    if 0 <= i < code.len() {
        if let Some(op) = opcode_of_byte(code[i]) {
            lemma_decode_operands_bounds(op, code, i + 1);
        }
    }
}

/// The whole disassembly: the header, the constants listing exactly when the
/// pool is non-empty, and the instruction lines.
pub open spec fn disasm_spec(code: Seq<u8>, consts: Seq<Value>) -> Seq<char> {
    "=== BYTECODE DISASSEMBLY ===\n\n"@ + (if consts.len() == 0 {
        Seq::<char>::empty()
    } else {
        "=== CONSTANTS POOL ===\n"@ + constants_text(consts, 0) + "\n"@
    }) + "=== INSTRUCTIONS ===\n"@ + instruction_lines(code, 0)
}

/// Renders one value, as [`obj_text`] says.
fn object_string(obj: &Object) -> (r: String)
    ensures
        r@ == obj_text(obj@),
    decreases obj, 0int,
{
    match obj {
        Object::Integer(v) => i64_to_string(*v),
        Object::Boolean(b) => {
            if *b {
                String::from_str("true")
            } else {
                String::from_str("false")
            }
        },
        Object::Null => String::from_str("null"),
        Object::String(s) => s.clone(),
        Object::Array(els) => {
            let ghost items = arr_view(els@);
            proof {
                lemma_arr_view(els@);
            }
            let mut out = String::from_str("[");
            let mut i: usize = 0;
            while i < els.len()
                invariant
                    i <= els@.len(),
                    *obj == Object::Array(*els),
                    items == arr_view(els@),
                    items.len() == els@.len(),
                    out@ + array_items_text(items, i as int) == "["@ + array_items_text(items, 0),
                decreases els@.len() - i,
            {
                proof {
                    lemma_array_element_decreases(*obj, *els, i as int);
                }
                let ghost before = out@;
                if i > 0 {
                    out.append(", ");
                }
                let part = object_string(&els[i]);
                out.append(part.as_str());
                proof {
                    lemma_arr_view(els@);
                    assert(part@ == obj_text(items[i as int]));
                    assert(out@ + array_items_text(items, i + 1) =~= before + array_items_text(
                        items,
                        i as int,
                    ));
                }
                i = i + 1;
            }
            out.append("]");
            proof {
                assert(array_items_text(items, els@.len() as int) =~= Seq::<char>::empty());
                assert(out@ =~= obj_text(obj@));
            }
            out
        },
    }
}

/// A byte offset in decimal, zero-padded to four digits, as [`pad4`] says.
fn offset_string(offset: usize) -> (r: String)
    ensures
        r@ == pad4(offset as nat),
{
    let digits = u64_to_string(offset as u64);
    let n = digits.as_str().unicode_len();
    let mut out = String::new();
    let mut pad: usize = 4;
    proof {
        reveal_strlit("0");
        assert(out@ =~= zeros(0));
    }
    while pad > n
        invariant
            n <= pad <= 4 || (pad == 4 && n >= 4),
            n == dec_digits(offset as nat).len(),
            out@ == zeros((4 - pad) as nat),
        decreases pad,
    {
        out.append("0");
        proof {
            reveal_strlit("0");
            assert(out@ =~= zeros((4 - pad + 1) as nat));
        }
        pad = pad - 1;
    }
    out.append(digits.as_str());
    proof {
        if n >= 4 {
            assert(zeros(0) =~= Seq::<char>::empty());
        }
        assert(out@ =~= pad4(offset as nat));
    }
    out
}

/// Disassembles a container into deterministic text, exactly
/// [`disasm_spec`] over the container's bytes and the models of its
/// constants.
#[verifier::rlimit(60)]
pub fn disassemble(instructions: &Instructions) -> (r: String)
    ensures
        r@ == disasm_spec(instructions.bytes@, arr_view(instructions.constants@)),
{
    let ghost code = instructions.bytes@;
    let ghost consts_v = arr_view(instructions.constants@);
    proof {
        lemma_arr_view(instructions.constants@);
    }
    let mut output = String::new();

    output.append("=== BYTECODE DISASSEMBLY ===\n\n");

    if instructions.constants.len() > 0 {
        output.append("=== CONSTANTS POOL ===\n");
        let ghost consts_start = output@;
        let mut idx: usize = 0;
        while idx < instructions.constants.len()
            invariant
                idx <= instructions.constants@.len(),
                consts_v == arr_view(instructions.constants@),
                consts_v.len() == instructions.constants@.len(),
                output@ + constants_text(consts_v, idx as int) == consts_start + constants_text(
                    consts_v,
                    0,
                ),
            decreases instructions.constants@.len() - idx,
        {
            let ghost before = output@;
            output.append("[");
            let index_text = u64_to_string(idx as u64);
            output.append(index_text.as_str());
            output.append("] ");
            let value_text = object_string(&instructions.constants[idx]);
            output.append(value_text.as_str());
            output.append("\n");
            proof {
                lemma_arr_view(instructions.constants@);
                assert(value_text@ == obj_text(consts_v[idx as int]));
                assert(output@ + constants_text(consts_v, idx + 1) =~= before + constants_text(
                    consts_v,
                    idx as int,
                ));
            }
            idx = idx + 1;
        }
        output.append("\n");
        proof {
            assert(constants_text(consts_v, consts_v.len() as int) =~= Seq::<char>::empty());
        }
    }
    output.append("=== INSTRUCTIONS ===\n");
    proof {
        assert(output@ + instruction_lines(code, 0) =~= disasm_spec(code, consts_v));
    }

    let mut i: usize = 0;
    while i < instructions.bytes.len()
        invariant
            i <= instructions.bytes@.len(),
            code == instructions.bytes@,
            consts_v == arr_view(instructions.constants@),
            output@ + instruction_lines(code, i as int) == disasm_spec(code, consts_v),
        decreases instructions.bytes@.len() - i,
    {
        let ghost before = output@;
        let op = Instructions::read_opcode(&instructions.bytes, i);
        if let Some(opcode) = op {
            let (operands, read) = Instructions::read_operands(opcode, &instructions.bytes, i + 1);
            proof {
                lemma_decode_operands_bounds(opcode, code, i + 1);
            }

            let offset_text = offset_string(i);
            output.append(offset_text.as_str());
            output.append(" ");
            output.append(opcode.mnemonic());

            let ghost line_base = output@;
            let mut k: usize = 0;
            while k < operands.len()
                invariant
                    k <= operands@.len(),
                    output@ + operands_text(operands@, k as int) == line_base + operands_text(
                        operands@,
                        0,
                    ),
                decreases operands@.len() - k,
            {
                let ghost at = output@;
                output.append(" ");
                let operand_text = u64_to_string(operands[k] as u64);
                output.append(operand_text.as_str());
                proof {
                    assert(output@ + operands_text(operands@, k + 1) =~= at + operands_text(
                        operands@,
                        k as int,
                    ));
                }
                k = k + 1;
            }
            output.append("\n");
            proof {
                assert(operands_text(operands@, operands@.len() as int)
                    =~= Seq::<char>::empty());
                assert(output@ + instruction_lines(code, i + 1 + read) =~= before
                    + instruction_lines(code, i as int));
            }
            i = i + 1 + read;
        } else {
            let offset_text = offset_string(i);
            output.append(offset_text.as_str());
            output.append(" UNKNOWN_OPCODE (");
            let byte_text = u64_to_string(instructions.bytes[i] as u64);
            output.append(byte_text.as_str());
            output.append(")\n");
            proof {
                assert(output@ + instruction_lines(code, i + 1) =~= before + instruction_lines(
                    code,
                    i as int,
                ));
            }
            i = i + 1;
        }
    }
    proof {
        assert(instruction_lines(code, code.len() as int) =~= Seq::<char>::empty());
        assert(output@ + Seq::<char>::empty() =~= output@);
    }
    output
}

} // verus!
