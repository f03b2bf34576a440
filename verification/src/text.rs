//! Decimal rendering of integers as text, used for timestamps and for
//! the numbered progress-event keys.

use vstd::prelude::*;

verus! {

/// Decimal digit bytes of a 64-bit value, most significant first.
pub open spec fn spec_dec_u64(n: u64) -> Seq<u8>
    decreases n,
{
    if n < 10 {
        seq![(0x30 + n) as u8]
    } else {
        spec_dec_u64(n / 10).push((0x30 + n % 10) as u8)
    }
}

/// The characters the digit bytes spell.
pub open spec fn spec_ascii_chars(b: Seq<u8>) -> Seq<char> {
    Seq::new(b.len(), |i: int| b[i] as char)
}

/// Every byte of a decimal rendering is a digit byte.
pub proof fn lemma_dec_u64_digits(n: u64)
    ensures
        spec_dec_u64(n).len() >= 1,
        forall|i: int|
            0 <= i < spec_dec_u64(n).len() ==> 0x30 <= #[trigger] spec_dec_u64(n)[i] <= 0x39,
    decreases n,
{
    if n >= 10 {
        lemma_dec_u64_digits(n / 10);
    }
}

/// Appends the decimal digit bytes of a value.
pub fn push_dec_u64(out: &mut Vec<u8>, n: u64)
    ensures
        final(out)@ == old(out)@ + spec_dec_u64(n),
    decreases n,
{
    if n < 10 {
        out.push(0x30 + n as u8);
        proof {
            assert(out@ =~= old(out)@ + spec_dec_u64(n));
        }
    } else {
        push_dec_u64(out, n / 10);
        out.push(0x30 + (n % 10) as u8);
        proof {
            assert(out@ =~= old(out)@ + spec_dec_u64(n));
        }
    }
}

/// Relies on std's `String::from_utf8`: bytes below 0x80 are valid
/// UTF-8 and decode to one character per byte, each the character with
/// that byte's code.
#[verifier::external_body]
fn ascii_to_string(bytes: Vec<u8>) -> (r: String)
    requires
        forall|i: int| 0 <= i < bytes@.len() ==> bytes@[i] < 0x80,
    ensures
        r@ == spec_ascii_chars(bytes@),
{
    String::from_utf8(bytes).unwrap_or_default()
}

/// The decimal rendering of a value, as text.
pub fn u64_to_string(n: u64) -> (s: String)
    ensures
        s@ == spec_ascii_chars(spec_dec_u64(n)),
{
    let mut bytes: Vec<u8> = Vec::new();
    push_dec_u64(&mut bytes, n);
    proof {
        lemma_dec_u64_digits(n);
        assert(bytes@ =~= spec_dec_u64(n));
    }
    ascii_to_string(bytes)
}

/// Decimal text of a signed value: a minus sign ahead of the digits of
/// its magnitude.
pub open spec fn spec_dec_i64_chars(n: i64) -> Seq<char> {
    if n >= 0 {
        spec_ascii_chars(spec_dec_u64(n as u64))
    } else {
        seq!['-'] + spec_ascii_chars(spec_dec_u64(((-(n + 1)) + 1) as u64))
    }
}

/// The decimal rendering of a signed value, as text.
pub fn i64_to_string(n: i64) -> (s: String)
    ensures
        s@ == spec_dec_i64_chars(n),
{
    if n >= 0 {
        u64_to_string(n as u64)
    } else {
        let magnitude: u64 = ((-(n + 1)) as u64) + 1;
        let digits = u64_to_string(magnitude);
        let s = String::from_str("-").concat(digits.as_str());
        proof {
            reveal_strlit("-");
            assert(s@ =~= spec_dec_i64_chars(n));
        }
        s
    }
}

} // verus!
