//! ASCII byte/string helpers: building strings from verified byte work,
//! and printing integers in decimal (used to normalize numeric trade ids).

use vstd::prelude::*;

verus! {

/// Characters of a byte sequence that holds only ASCII bytes.
pub open spec fn chars_of_bytes(s: Seq<u8>) -> Seq<char> {
    s.map_values(|b: u8| b as char)
}

/// Decimal digits of a natural number, most significant first.
pub open spec fn dec_bytes(n: nat) -> Seq<u8>
    decreases n,
{
    if n < 10 {
        seq![(n + 48) as u8]
    } else {
        dec_bytes(n / 10).push((n % 10 + 48) as u8)
    }
}

/// Decimal text of an integer, with a leading minus sign when negative.
pub open spec fn int_str_bytes(n: int) -> Seq<u8> {
    if n < 0 {
        seq![45u8] + dec_bytes((-n) as nat)
    } else {
        dec_bytes(n as nat)
    }
}

/// Relies on String::from_utf8: bytes below 128 decode to one character
/// per byte, each with the same code point as its byte.
#[verifier::external_body]
pub(crate) fn string_from_ascii_bytes(v: &Vec<u8>) -> (r: String)
    requires
        forall|i: int| 0 <= i < v@.len() ==> v@[i] < 128,
    ensures
        r@ == chars_of_bytes(v@),
{
    String::from_utf8(v.clone()).unwrap()
}

proof fn lemma_dec_bytes_ascii(n: nat)
    ensures
        forall|i: int| 0 <= i < dec_bytes(n).len() ==> 48 <= #[trigger] dec_bytes(n)[i] <= 57,
    decreases n,
{
    if n >= 10 {
        lemma_dec_bytes_ascii(n / 10);
        assert(dec_bytes(n) == dec_bytes(n / 10).push((n % 10 + 48) as u8));
        assert forall|i: int| 0 <= i < dec_bytes(n).len() implies 48 <= #[trigger] dec_bytes(n)[i]
            <= 57 by {
            if i < dec_bytes(n / 10).len() {
                assert(dec_bytes(n)[i] == dec_bytes(n / 10)[i]);
            } else {
                assert(dec_bytes(n)[i] == (n % 10 + 48) as u8);
            }
        }
    } else {
        assert(dec_bytes(n) == seq![(n + 48) as u8]);
    }
}

fn push_dec_bytes(m: u64, out: &mut Vec<u8>)
    ensures
        final(out)@ == old(out)@ + dec_bytes(m as nat),
    decreases m,
{
    if m < 10 {
        out.push((m as u8) + 48);
        assert(out@ =~= old(out)@ + dec_bytes(m as nat));
    } else {
        push_dec_bytes(m / 10, out);
        out.push(((m % 10) as u8) + 48);
        assert(out@ =~= old(out)@ + dec_bytes(m as nat));
    }
}

/// Decimal text of an unsigned integer.
pub fn u64_to_string(m: u64) -> (r: String)
    ensures
        r@ == chars_of_bytes(dec_bytes(m as nat)),
{
    let mut out: Vec<u8> = Vec::new();
    push_dec_bytes(m, &mut out);
    proof {
        lemma_dec_bytes_ascii(m as nat);
        assert(out@ =~= dec_bytes(m as nat));
    }
    string_from_ascii_bytes(&out)
}

/// Decimal text of a signed integer, as the exchange writes trade ids.
pub fn i64_to_string(n: i64) -> (r: String)
    ensures
        r@ == chars_of_bytes(int_str_bytes(n as int)),
{
    if n >= 0 {
        u64_to_string(n as u64)
    } else {
        // Magnitude computed without overflowing at the smallest value.
        let mag: u64 = ((-(n + 1)) as u64) + 1;
        let mut out: Vec<u8> = Vec::new();
        out.push(45);
        push_dec_bytes(mag, &mut out);
        proof {
            lemma_dec_bytes_ascii(mag as nat);
            assert(out@ =~= seq![45u8] + dec_bytes(mag as nat));
            assert(int_str_bytes(n as int) == seq![45u8] + dec_bytes((-(n as int)) as nat));
        }
        string_from_ascii_bytes(&out)
    }
}

} // verus!
