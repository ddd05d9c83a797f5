//! The bytecode container: an append-only byte stream of encoded instructions
//! together with an append-only constant pool.
//!
//! Operands are encoded big-endian at the width their opcode declares. The
//! decode primitives are defensive: on a truncated buffer they stop early and
//! report how many bytes they actually read.

use vstd::prelude::*;

use crate::object::Object;
use crate::object::arr_view;
use crate::object::lemma_arr_view;
use crate::opcode::Opcode;
use crate::opcode::opcode_of_byte;
use crate::opcode::tag_of;
use crate::opcode::widths_of;

verus! {

broadcast use vstd::std_specs::vec::group_vec_axioms, vstd::seq::group_seq_axioms;

/// A sequence of encoded instructions and the constant pool they index.
#[derive(Debug, PartialEq)]
pub struct Instructions {
    /// The encoded instruction stream.
    pub bytes: Vec<u8>,
    /// The constant pool: values addressed by index from the stream.
    pub constants: Vec<Object>,
}

/// The big-endian encoding of one operand at the given width. A value wider
/// than its slot keeps only its low bytes.
pub open spec fn encode_operand(width: u8, v: u16) -> Seq<u8> {
    if width == 1 {
        seq![(v % 256) as u8]
    } else if width == 2 {
        seq![(v / 256) as u8, (v % 256) as u8]
    } else {
        seq![]
    }
}

/// The encoding of a list of operands against a list of widths, pairwise.
pub open spec fn encode_operands(widths: Seq<u8>, operands: Seq<u16>) -> Seq<u8>
    decreases widths.len(),
{
    if widths.len() == 0 || operands.len() == 0 {
        seq![]
    } else {
        encode_operand(widths[0], operands[0]) + encode_operands(widths.skip(1), operands.skip(1))
    }
}

/// The full encoding of one instruction: the opcode's tag byte, then each
/// operand big-endian at its declared width.
pub open spec fn encoding(op: Opcode, operands: Seq<u16>) -> Seq<u8> {
    seq![tag_of(op)] + encode_operands(widths_of(op), operands)
}

/// Decodes operands for the given width list from `bytes` at `offset`:
/// the operands read and how many bytes they took. Stops early, keeping
/// what it has, when the buffer is too short for the next operand.
pub open spec fn decode_operands(widths: Seq<u8>, bytes: Seq<u8>, offset: int) -> (Seq<u16>, int)
    decreases widths.len(),
{
    if widths.len() == 0 {
        (seq![], 0)
    } else if widths[0] == 1 {
        if offset >= bytes.len() {
            (seq![], 0)
        } else {
            let rest = decode_operands(widths.skip(1), bytes, offset + 1);
            (seq![bytes[offset] as u16] + rest.0, 1 + rest.1)
        }
    } else if widths[0] == 2 {
        if offset + 1 >= bytes.len() {
            (seq![], 0)
        } else {
            let rest = decode_operands(widths.skip(1), bytes, offset + 2);
            (seq![(bytes[offset] * 256 + bytes[offset + 1]) as u16] + rest.0, 2 + rest.1)
        }
    } else {
        (seq![], 0)
    }
}

/// Reading the opcode at an offset: `None` past the end of the buffer or on
/// a byte that is no valid tag.
pub open spec fn read_opcode_at(bytes: Seq<u8>, offset: int) -> Option<Opcode> {
    if offset < bytes.len() {
        opcode_of_byte(bytes[offset])
    } else {
        None
    }
}

/// Every opcode declares at most one operand, one or two bytes wide.
pub proof fn lemma_widths_shape(op: Opcode)
    ensures
        widths_of(op).len() <= 1,
        widths_of(op).len() == 1 ==> widths_of(op)[0] == 1 || widths_of(op)[0] == 2,
{
}

impl Instructions {
    /// An empty container: no instructions, no constants.
    pub fn new() -> (r: Instructions)
        ensures
            r.bytes@ == Seq::<u8>::empty(),
            r.constants@ == Seq::<Object>::empty(),
    {
        Instructions { bytes: Vec::new(), constants: Vec::new() }
    }

    /// Appends another container's instruction bytes to this one. Constant
    /// pools are not merged: a caller combining containers must keep the
    /// constant indices consistent itself.
    pub fn append(&mut self, other: &Instructions)
        ensures
            final(self).bytes@ == old(self).bytes@ + other.bytes@,
            final(self).constants == old(self).constants,
    {
        let mut i: usize = 0;
        while i < other.bytes.len()
            invariant
                i <= other.bytes@.len(),
                self.bytes@ == old(self).bytes@ + other.bytes@.take(i as int),
                self.constants == old(self).constants,
            decreases other.bytes@.len() - i,
        {
            self.bytes.push(other.bytes[i]);
            proof {
                assert(old(self).bytes@ + other.bytes@.take(i + 1) =~= (old(self).bytes@
                    + other.bytes@.take(i as int)).push(other.bytes@[i as int]));
            }
            i = i + 1;
        }
        proof {
            assert(other.bytes@.take(other.bytes@.len() as int) =~= other.bytes@);
        }
    }

    /// Appends a value to the constant pool and returns its new index:
    /// indices grow monotonically and nothing is ever deduplicated.
    pub fn add_constant(&mut self, obj: Object) -> (idx: usize)
        ensures
            final(self).constants@ == old(self).constants@.push(obj),
            final(self).bytes == old(self).bytes,
            idx == old(self).constants@.len(),
    {
        self.constants.push(obj);
        self.constants.len() - 1
    }

    /// Emits one instruction: the opcode's tag byte, then each operand
    /// big-endian at the declared width. Returns the byte offset where the
    /// tag was written, usable as a patch-site handle.
    ///
    /// The caller must supply exactly as many operands as the opcode
    /// declares; this is an internal invariant of the compiler, not a
    /// user-facing error path.
    pub fn emit(&mut self, op: Opcode, operands: &[u16]) -> (pos: usize)
        requires
            operands@.len() == widths_of(op).len(),
        ensures
            final(self).bytes@ == old(self).bytes@ + encoding(op, operands@),
            final(self).constants == old(self).constants,
            pos == old(self).bytes@.len(),
    {
        proof {
            lemma_widths_shape(op);
        }
        let pos = self.bytes.len();
        self.bytes.push(op.tag());
        if operands.len() > 0 {
            let widths = op.operand_widths();
            let v = operands[0];
            if widths[0] == 1 {
                self.bytes.push((v % 256) as u8);
            } else {
                self.bytes.push((v / 256) as u8);
                self.bytes.push((v % 256) as u8);
            }
        }
        proof {
            if operands@.len() == 0 {
                assert(encode_operands(widths_of(op), operands@) =~= seq![]);
            } else {
                assert(encode_operands(widths_of(op).skip(1), operands@.skip(1)) =~= seq![]);
                assert(encode_operands(widths_of(op), operands@) =~= encode_operand(
                    widths_of(op)[0],
                    operands@[0],
                ));
            }
            assert(self.bytes@ =~= old(self).bytes@ + encoding(op, operands@));
        }
        pos
    }

    /// Reads the opcode at an offset; `None` past the end of the buffer or
    /// on a byte that is no valid tag.
    pub fn read_opcode(bytes: &[u8], offset: usize) -> (r: Option<Opcode>)
        ensures
            r == read_opcode_at(bytes@, offset as int),
    {
        if offset >= bytes.len() {
            return None;
        }
        Opcode::from_byte(bytes[offset])
    }

    /// Reads the operands the opcode declares from `bytes` at `offset`:
    /// the operands and how many bytes they took. On a truncated buffer it
    /// stops early with what it has.
    pub fn read_operands(op: Opcode, bytes: &[u8], offset: usize) -> (r: (Vec<u16>, usize))
        ensures
            (r.0@, r.1 as int) == decode_operands(widths_of(op), bytes@, offset as int),
    {
        proof {
            lemma_widths_shape(op);
        }
        let widths = op.operand_widths();
        let mut operands: Vec<u16> = Vec::new();
        if widths.len() == 0 {
            return (operands, 0);
        }
        let w = widths[0];
        if w == 1 {
            if offset >= bytes.len() {
                return (operands, 0);
            }
            operands.push(bytes[offset] as u16);
            proof {
                assert(decode_operands(widths_of(op).skip(1), bytes@, offset + 1) == (
                    Seq::<u16>::empty(),
                    0int,
                ));
                assert(operands@ =~= decode_operands(widths_of(op), bytes@, offset as int).0);
            }
            (operands, 1)
        } else {
            if offset >= bytes.len() || offset + 1 >= bytes.len() {
                return (operands, 0);
            }
            let hi = bytes[offset] as u16;
            let lo = bytes[offset + 1] as u16;
            operands.push(hi * 256 + lo);
            proof {
                assert(decode_operands(widths_of(op).skip(1), bytes@, offset + 2) == (
                    Seq::<u16>::empty(),
                    0int,
                ));
                assert(operands@ =~= decode_operands(widths_of(op), bytes@, offset as int).0);
            }
            (operands, 2)
        }
    }

    /// The constant at an index: `None` when the index is past the pool.
    pub fn get_constant(&self, index: usize) -> (r: Option<&Object>)
        ensures
            index < self.constants@.len() ==> (r matches Some(c) && *c == self.constants@[
                index as int
            ]),
            index >= self.constants@.len() ==> r is None,
    {
        if index < self.constants.len() {
            Some(&self.constants[index])
        } else {
            None
        }
    }

    /// All constants of the pool, in insertion order.
    pub fn get_constants(&self) -> (r: &Vec<Object>)
        ensures
            r == &self.constants,
    {
        &self.constants
    }
}

impl Instructions {
    /// A copy of the container: the same bytes, and constants with the same
    /// models.
    pub fn duplicate(&self) -> (r: Instructions)
        ensures
            r.bytes@ == self.bytes@,
            arr_view(r.constants@) == arr_view(self.constants@),
    {
        let mut bytes: Vec<u8> = Vec::new();
        let mut i: usize = 0;
        while i < self.bytes.len()
            invariant
                i <= self.bytes@.len(),
                bytes@ == self.bytes@.take(i as int),
            decreases self.bytes@.len() - i,
        {
            bytes.push(self.bytes[i]);
            i = i + 1;
        }
        let mut constants: Vec<Object> = Vec::new();
        let mut j: usize = 0;
        while j < self.constants.len()
            invariant
                j <= self.constants@.len(),
                constants@.len() == j as int,
                forall|k: int| 0 <= k < j as int ==> constants@[k]@ == #[trigger] self.constants@[k]@,
            decreases self.constants@.len() - j,
        {
            constants.push(self.constants[j].duplicate());
            j = j + 1;
        }
        proof {
            assert(self.bytes@.take(self.bytes@.len() as int) =~= self.bytes@);
            lemma_arr_view(constants@);
            lemma_arr_view(self.constants@);
            assert forall|k: int| 0 <= k < constants@.len() implies arr_view(constants@)[k]
                == arr_view(self.constants@)[k] by {
                assert(constants@[k]@ == self.constants@[k]@);
            }
            assert(arr_view(constants@) =~= arr_view(self.constants@));
        }
        Instructions { bytes, constants }
    }
}

impl Default for Instructions {
    /// The default container is the empty one.
    fn default() -> (r: Instructions)
        ensures
            r.bytes@ == Seq::<u8>::empty(),
            r.constants@ == Seq::<Object>::empty(),
    {
        Instructions::new()
    }
}

/// Decoding reads zero, one or two bytes, and never past the end of the
/// buffer.
pub proof fn lemma_decode_operands_bounds(op: Opcode, bytes: Seq<u8>, offset: int)
    ensures
        ({
            let read = decode_operands(widths_of(op), bytes, offset).1;
            &&& (read == 0 || read == 1 || read == 2)
            &&& (read != 0 ==> offset + read <= bytes.len())
        }),
{
    lemma_widths_shape(op);
    let w = widths_of(op);
    if w.len() == 1 {
        assert(decode_operands(w.skip(1), bytes, offset + 1) == (Seq::<u16>::empty(), 0int));
        assert(decode_operands(w.skip(1), bytes, offset + 2) == (Seq::<u16>::empty(), 0int));
    }
}

/// Round trip: decoding the bytes produced by encoding an opcode with a
/// matching operand list yields back the opcode, the same operands, and the
/// exact number of operand bytes.
pub proof fn lemma_encode_decode_roundtrip(op: Opcode, operands: Seq<u16>)
    requires
        operands.len() == widths_of(op).len(),
        forall|i: int|
            0 <= i < operands.len() && widths_of(op)[i] == 1 ==> #[trigger] operands[i] < 256,
    ensures
        read_opcode_at(encoding(op, operands), 0) == Some(op),
        decode_operands(widths_of(op), encoding(op, operands), 1).0 == operands,
        decode_operands(widths_of(op), encoding(op, operands), 1).1 == encoding(
            op,
            operands,
        ).len() - 1,
{
    lemma_widths_shape(op);
    crate::opcode::lemma_opcode_tag_bijection();
    let bytes = encoding(op, operands);
    if operands.len() == 0 {
        assert(encode_operands(widths_of(op), operands) =~= seq![]);
        assert(decode_operands(widths_of(op), bytes, 1).0 =~= operands);
    } else {
        let w = widths_of(op)[0];
        let v = operands[0];
        assert(encode_operands(widths_of(op).skip(1), operands.skip(1)) =~= seq![]);
        assert(encode_operands(widths_of(op), operands) =~= encode_operand(w, v));
        if w == 1 {
            assert(bytes =~= seq![tag_of(op), (v % 256) as u8]);
            assert(decode_operands(widths_of(op).skip(1), bytes, 2) == (Seq::<u16>::empty(), 0int));
            assert(decode_operands(widths_of(op), bytes, 1).0 =~= operands);
        } else {
            assert(bytes =~= seq![tag_of(op), (v / 256) as u8, (v % 256) as u8]);
            assert(decode_operands(widths_of(op).skip(1), bytes, 3) == (Seq::<u16>::empty(), 0int));
            assert(((v / 256) as u8 as u16) * 256 + ((v % 256) as u8 as u16) == v) by {
                assert(v / 256 < 256);
                assert(v == 256 * (v / 256) + v % 256);
            }
            assert(decode_operands(widths_of(op), bytes, 1).0 =~= operands);
        }
    }
}

} // verus!
