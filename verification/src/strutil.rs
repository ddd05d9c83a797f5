//! Small string-building helpers shared by the syntax-tree printer and the
//! disassembler: appending single characters and rendering integers in
//! decimal.

use vstd::prelude::*;
use vstd::string::StringExecFns;

verus! {

broadcast use vstd::std_specs::vec::group_vec_axioms, vstd::seq::group_seq_axioms;

/// Relies on String::push: appends exactly the one character.
#[verifier::external_body]
pub fn push_char(s: &mut String, c: char)
    ensures
        final(s)@ == old(s)@.push(c),
{
    s.push(c);
}

/// The decimal digits of `n`, most significant first.
pub open spec fn dec_digits(n: nat) -> Seq<char>
    decreases n,
{
    if n < 10 {
        seq![digit_char(n)]
    } else {
        dec_digits(n / 10).push(digit_char(n % 10))
    }
}

/// The character for one decimal digit.
pub open spec fn digit_char(d: nat) -> char {
    ('0' as u8 + d) as char
}

/// The decimal rendering of a signed integer: a minus sign for negative
/// values, then the digits of the magnitude.
pub open spec fn dec_int(v: int) -> Seq<char> {
    if v < 0 {
        seq!['-'] + dec_digits((-v) as nat)
    } else {
        dec_digits(v as nat)
    }
}

/// Renders an unsigned integer in decimal.
pub fn u64_to_string(n: u64) -> (r: String)
    ensures
        r@ == dec_digits(n as nat),
{
    let mut digits: Vec<char> = Vec::new();
    let mut rest: u64 = n;
    while rest >= 10
        invariant
            dec_digits(n as nat) == dec_digits(rest as nat) + digits@.reverse(),
        decreases rest,
    {
        let d = rest % 10;
        proof {
            assert(dec_digits(rest as nat) == dec_digits((rest / 10) as nat).push(
                digit_char((rest % 10) as nat),
            ));
            assert(dec_digits((rest / 10) as nat) + digits@.push(
                digit_char((rest % 10) as nat),
            ).reverse() =~= dec_digits(rest as nat) + digits@.reverse());
        }
        digits.push(('0' as u8 + (d as u8)) as char);
        rest = rest / 10;
    }
    let mut out = String::new();
    push_char(&mut out, ('0' as u8 + (rest as u8)) as char);
    proof {
        assert(out@ =~= dec_digits(rest as nat));
    }
    let mut i: usize = digits.len();
    while i > 0
        invariant
            i <= digits@.len(),
            out@ == dec_digits(rest as nat) + digits@.subrange(i as int, digits@.len() as int)
                .reverse(),
        decreases i,
    {
        i = i - 1;
        push_char(&mut out, digits[i]);
        proof {
            assert(digits@.subrange(i as int, digits@.len() as int).reverse() =~= digits@.subrange(
                i + 1,
                digits@.len() as int,
            ).reverse().push(digits@[i as int]));
        }
    }
    proof {
        assert(digits@.subrange(0, digits@.len() as int) =~= digits@);
    }
    out
}

/// Renders a signed integer in decimal, with a leading minus sign when it is
/// negative.
pub fn i64_to_string(v: i64) -> (r: String)
    ensures
        r@ == dec_int(v as int),
{
    if v >= 0 {
        u64_to_string(v as u64)
    } else {
        let magnitude: u64 = (-(v + 1)) as u64 + 1;
        let mut out = String::new();
        push_char(&mut out, '-');
        let tail = u64_to_string(magnitude);
        out.append(tail.as_str());
        proof {
            assert(out@ =~= dec_int(v as int));
        }
        out
    }
}

/// Character-wise string equality: true exactly when the two views match.
pub fn str_eq(a: &str, b: &str) -> (r: bool)
    ensures
        r == (a@ == b@),
{
    let n = a.unicode_len();
    let m = b.unicode_len();
    if n != m {
        return false;
    }
    let mut i: usize = 0;
    while i < n
        invariant
            i <= n,
            n == a@.len(),
            n == b@.len(),
            forall|j: int| 0 <= j < i as int ==> a@[j] == b@[j],
        decreases n - i,
    {
        if a.get_char(i) != b.get_char(i) {
            return false;
        }
        i = i + 1;
    }
    proof {
        assert(a@ =~= b@);
    }
    true
}

} // verus!
