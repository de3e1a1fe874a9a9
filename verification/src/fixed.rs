//! Fixed-point decimal numbers.
//!
//! The exchange sends every price and volume as a decimal string. The
//! library represents such a number as an integer count of 10^-8 units:
//! `"12.5"` becomes `1_250_000_000`. A string parses when it consists of
//! one or more integer digits, optionally followed by a dot and one to
//! eight fractional digits, and its integer part is below 10^10; anything
//! else yields no value, and the caller drops the message or record.

use vstd::prelude::*;
use vstd::string::StringSliceAdditionalSpecFns;
use vstd::arithmetic::mul::{lemma_mul_inequality, lemma_mul_is_distributive_sub_other_way};

verus! {

/// Number of fixed-point units per whole unit (eight decimal places).
pub const FIXED_SCALE: i64 = 100_000_000;

/// Exclusive bound on the integer part of a parsable decimal.
pub const FIXED_INT_LIMIT: i64 = 10_000_000_000;

/// Every parsed value is below this bound (10^18).
pub const FIXED_VALUE_LIMIT: i64 = 1_000_000_000_000_000_000;

pub open spec fn is_digit_byte(b: u8) -> bool {
    48 <= b && b <= 57
}

pub open spec fn all_digit_bytes(s: Seq<u8>) -> bool {
    forall|i: int| 0 <= i < s.len() ==> is_digit_byte(#[trigger] s[i])
}

/// Value of a digit string read in base ten.
pub open spec fn digits_value(s: Seq<u8>) -> int
    decreases s.len(),
{
    if s.len() == 0 {
        0
    } else {
        digits_value(s.drop_last()) * 10 + (s.last() - 48)
    }
}

pub open spec fn pow10(n: nat) -> int
    decreases n,
{
    if n == 0 {
        1
    } else {
        10 * pow10((n - 1) as nat)
    }
}

pub open spec fn has_dot(s: Seq<u8>) -> bool {
    exists|i: int| 0 <= i < s.len() && s[i] == 46u8
}

pub open spec fn dot_index(s: Seq<u8>) -> int {
    choose|i: int| 0 <= i < s.len() && s[i] == 46u8
}

pub open spec fn int_part(s: Seq<u8>) -> Seq<u8> {
    if has_dot(s) {
        s.take(dot_index(s))
    } else {
        s
    }
}

pub open spec fn frac_part(s: Seq<u8>) -> Seq<u8> {
    if has_dot(s) {
        s.skip(dot_index(s) + 1)
    } else {
        Seq::empty()
    }
}

/// The decimal grammar accepted by the library.
pub open spec fn valid_decimal(s: Seq<u8>) -> bool {
    &&& int_part(s).len() >= 1
    &&& all_digit_bytes(int_part(s))
    &&& (has_dot(s) ==> 1 <= frac_part(s).len() <= 8 && all_digit_bytes(frac_part(s)))
    &&& digits_value(int_part(s)) < FIXED_INT_LIMIT
}

/// Fixed-point value of a valid decimal string.
pub open spec fn decimal_value(s: Seq<u8>) -> int {
    digits_value(int_part(s)) * (FIXED_SCALE as int) + digits_value(frac_part(s)) * pow10(
        (8 - frac_part(s).len()) as nat,
    )
}

/// What `parse_fixed` returns on every input.
pub open spec fn parse_fixed_spec(s: Seq<u8>) -> Option<i64> {
    if valid_decimal(s) {
        Some(decimal_value(s) as i64)
    } else {
        None
    }
}

/// Shorthand for parsing the bytes of a character string.
pub open spec fn parse_fixed_chars(s: Seq<char>) -> Option<i64> {
    parse_fixed_spec(vstd::utf8::encode_utf8(s))
}

pub proof fn lemma_digits_value_nonneg(s: Seq<u8>)
    requires
        all_digit_bytes(s),
    ensures
        digits_value(s) >= 0,
    decreases s.len(),
{
    if s.len() > 0 {
        assert(all_digit_bytes(s.drop_last())) by {
            assert(forall|i: int|
                0 <= i < s.drop_last().len() ==> #[trigger] s.drop_last()[i] == s[i]);
        }
        lemma_digits_value_nonneg(s.drop_last());
    }
}

/// A digit string's value is below 10 to the power of its length.
pub proof fn lemma_digits_value_upper(s: Seq<u8>)
    requires
        all_digit_bytes(s),
    ensures
        digits_value(s) < pow10(s.len()),
    decreases s.len(),
{
    if s.len() > 0 {
        assert(all_digit_bytes(s.drop_last())) by {
            assert(forall|i: int|
                0 <= i < s.drop_last().len() ==> #[trigger] s.drop_last()[i] == s[i]);
        }
        lemma_digits_value_upper(s.drop_last());
        assert(s.last() - 48 <= 9);
    }
}

/// Extending a digit string on the right can only raise its value.
pub proof fn lemma_digits_value_prefix(s: Seq<u8>, k: int)
    requires
        all_digit_bytes(s),
        0 <= k <= s.len(),
    ensures
        digits_value(s.take(k)) <= digits_value(s),
    decreases s.len() - k,
{
    if k < s.len() {
        lemma_digits_value_prefix(s, k + 1);
        assert(s.take(k + 1).drop_last() =~= s.take(k));
        assert(all_digit_bytes(s.take(k))) by {
            assert(forall|i: int| 0 <= i < k ==> #[trigger] s.take(k)[i] == s[i]);
        }
        lemma_digits_value_nonneg(s.take(k));
        assert(digits_value(s.take(k + 1)) == digits_value(s.take(k)) * 10 + (s.take(k + 1).last()
            - 48));
    } else {
        assert(s.take(k) =~= s);
    }
}

proof fn lemma_pow10_pos(n: nat)
    ensures
        pow10(n) >= 1,
    decreases n,
{
    if n > 0 {
        lemma_pow10_pos((n - 1) as nat);
    }
}

proof fn lemma_pow10_mono(a: nat, b: nat)
    requires
        a <= b,
    ensures
        1 <= pow10(a) <= pow10(b),
    decreases b - a,
{
    lemma_pow10_pos(a);
    if a < b {
        lemma_pow10_mono(a, (b - 1) as nat);
        lemma_pow10_pos((b - 1) as nat);
        assert(pow10(b) == 10 * pow10((b - 1) as nat));
    }
}

/// The fractional places and the remaining places multiply to one whole unit.
proof fn lemma_pow10_mul(l: nat)
    requires
        l <= 8,
    ensures
        pow10(l) * pow10((8 - l) as nat) == pow10(8),
    decreases l,
{
    if l > 0 {
        lemma_pow10_mul((l - 1) as nat);
        assert(pow10((9 - l) as nat) == 10 * pow10((8 - l) as nat));
        assert(pow10(l) == 10 * pow10((l - 1) as nat));
        assert(pow10((l - 1) as nat) * (10 * pow10((8 - l) as nat)) == (10 * pow10(
            (l - 1) as nat,
        )) * pow10((8 - l) as nat)) by (nonlinear_arith);
    }
}

fn pow10_exec(n: u64) -> (r: i64)
    requires
        n <= 8,
    ensures
        r == pow10(n as nat),
        1 <= r <= 100_000_000,
{
    proof {
        reveal_with_fuel(pow10, 9);
    }
    if n == 0 {
        1
    } else if n == 1 {
        10
    } else if n == 2 {
        100
    } else if n == 3 {
        1_000
    } else if n == 4 {
        10_000
    } else if n == 5 {
        100_000
    } else if n == 6 {
        1_000_000
    } else if n == 7 {
        10_000_000
    } else {
        100_000_000
    }
}

/// Parse a decimal string into fixed-point units of 10^-8.
///
/// Returns exactly what `parse_fixed_spec` says of the string's bytes:
/// a value for every string matching the decimal grammar, nothing for
/// any other string.
pub fn parse_fixed(s: &str) -> (r: Option<i64>)
    ensures
        r == parse_fixed_spec(s.spec_bytes()),
        r is Some ==> 0 <= r->Some_0 < FIXED_VALUE_LIMIT,
{
    let b: &[u8] = s.as_bytes();
    let ghost bs: Seq<u8> = s.spec_bytes();
    let n: usize = b.len();

    // Locate the first dot, if any.
    let mut dot: Option<usize> = None;
    let mut i: usize = 0;
    while i < n
        invariant
            0 <= i <= n == bs.len(),
            b@ == bs,
            dot is None ==> forall|k: int| 0 <= k < i ==> bs[k] != 46u8,
            dot matches Some(j) ==> j < i && bs[j as int] == 46u8 && (forall|k: int|
                0 <= k < j ==> bs[k] != 46u8),
        decreases n - i,
    {
        if dot.is_none() && b[i] == 46 {
            dot = Some(i);
        }
        i = i + 1;
    }

    let int_end: usize = match dot {
        Some(j) => j,
        None => n,
    };

    if int_end == 0 {
        // Empty integer part: the string is empty or starts with a dot.
        proof {
            if has_dot(bs) {
                let di = dot_index(bs);
                assert(bs[di] == 46u8);
                if dot is None {
                    assert(false);
                }
                if di == 0 {
                    assert(int_part(bs).len() == 0);
                } else {
                    assert(int_part(bs)[0] == bs[0]);
                    assert(!is_digit_byte(int_part(bs)[0]));
                }
            }
        }
        return None;
    }

    // Integer part: all digits, value below the limit.
    let mut acc: i64 = 0;
    let mut i2: usize = 0;
    while i2 < int_end
        invariant
            0 <= i2 <= int_end <= n == bs.len(),
            b@ == bs,
            bs == s.spec_bytes(),
            int_end >= 1,
            dot matches Some(j) ==> int_end == j && j < n && bs[j as int] == 46u8 && (forall|
                k: int,
            |
                0 <= k < j ==> bs[k] != 46u8),
            dot is None ==> int_end == n && !has_dot(bs),
            all_digit_bytes(bs.take(i2 as int)),
            acc == digits_value(bs.take(i2 as int)),
            0 <= acc < FIXED_INT_LIMIT,
        decreases int_end - i2,
    {
        let d: u8 = b[i2];
        if d < 48 || d > 57 {
            // A non-digit inside the integer part invalidates the string,
            // wherever the spec-level dot falls.
            proof {
                if has_dot(bs) {
                    let di = dot_index(bs);
                    assert(bs[di] == 46u8);
                    assert(dot is Some);
                    assert(di >= int_end);
                    if di > int_end {
                        assert(int_part(bs)[int_end as int] == bs[int_end as int]);
                        assert(!is_digit_byte(int_part(bs)[int_end as int]));
                    } else {
                        assert(int_part(bs)[i2 as int] == bs[i2 as int]);
                        assert(!is_digit_byte(int_part(bs)[i2 as int]));
                    }
                } else {
                    assert(int_part(bs)[i2 as int] == bs[i2 as int]);
                    assert(!is_digit_byte(int_part(bs)[i2 as int]));
                }
            }
            return None;
        }
        let next: i64 = acc * 10 + ((d - 48) as i64);
        proof {
            assert(bs.take(i2 + 1).drop_last() =~= bs.take(i2 as int));
            assert(bs.take(i2 + 1).last() == bs[i2 as int]);
            assert(all_digit_bytes(bs.take(i2 + 1))) by {
                assert(forall|k: int| 0 <= k < i2 + 1 ==> #[trigger] bs.take(i2 + 1)[k] == bs[k]);
            }
        }
        if next >= FIXED_INT_LIMIT {
            // The integer part is already too large on this prefix.
            proof {
                if has_dot(bs) {
                    let di = dot_index(bs);
                    assert(bs[di] == 46u8);
                    assert(dot is Some);
                    assert(di >= int_end);
                    if di > int_end {
                        assert(int_part(bs)[int_end as int] == bs[int_end as int]);
                        assert(!is_digit_byte(int_part(bs)[int_end as int]));
                    } else {
                        assert(int_part(bs) =~= bs.take(int_end as int));
                        if all_digit_bytes(int_part(bs)) {
                            lemma_digits_value_prefix(bs.take(int_end as int), i2 + 1);
                            assert(bs.take(int_end as int).take(i2 + 1) =~= bs.take(i2 + 1));
                        }
                    }
                } else {
                    assert(int_part(bs) =~= bs.take(int_end as int));
                    if all_digit_bytes(int_part(bs)) {
                        lemma_digits_value_prefix(bs.take(int_end as int), i2 + 1);
                        assert(bs.take(int_end as int).take(i2 + 1) =~= bs.take(i2 + 1));
                    }
                }
            }
            return None;
        }
        acc = next;
        i2 = i2 + 1;
    }

    match dot {
        None => {
            proof {
                assert(bs.take(int_end as int) =~= bs);
                assert(valid_decimal(bs));
                assert(frac_part(bs).len() == 0);
                assert(digits_value(frac_part(bs)) == 0);
                assert(decimal_value(bs) == acc * (FIXED_SCALE as int));
            }
            Some(acc * FIXED_SCALE)
        },
        Some(j) => {
            proof {
                assert(has_dot(bs));
                let di = dot_index(bs);
                assert(bs[di] == 46u8);
                assert(di >= j);
                if di > j {
                    assert(int_part(bs)[j as int] == bs[j as int]);
                    assert(!is_digit_byte(int_part(bs)[j as int]));
                    assert(!all_digit_bytes(int_part(bs)));
                }
            }
            let flen: usize = n - j - 1;
            if flen == 0 {
                proof {
                    if dot_index(bs) == j {
                        assert(frac_part(bs).len() == 0);
                    }
                }
                return None;
            }
            if flen > 8 {
                proof {
                    if dot_index(bs) == j {
                        assert(frac_part(bs).len() > 8);
                    }
                }
                return None;
            }
            // Fractional part: all digits.
            let mut facc: i64 = 0;
            let mut k: usize = j + 1;
            while k < n
                invariant
                    j + 1 <= k <= n == bs.len(),
                    b@ == bs,
                    bs == s.spec_bytes(),
                    j < n,
                    bs[j as int] == 46u8,
                    has_dot(bs),
                    all_digit_bytes(bs.take(j as int)),
                    dot_index(bs) > j ==> !all_digit_bytes(int_part(bs)),
                    flen == n - j - 1,
                    1 <= flen <= 8,
                    all_digit_bytes(bs.skip(j + 1).take(k - j - 1)),
                    facc == digits_value(bs.skip(j + 1).take(k - j - 1)),
                    0 <= facc < 100_000_000,
                decreases n - k,
            {
                let d: u8 = b[k];
                if d < 48 || d > 57 {
                    proof {
                        let di = dot_index(bs);
                        assert(bs[di] == 46u8);
                        assert(di >= j) by {
                            if di < j {
                                assert(is_digit_byte(bs.take(j as int)[di]));
                            }
                        }
                        if di > j {
                            assert(int_part(bs)[j as int] == bs[j as int]);
                            assert(!is_digit_byte(int_part(bs)[j as int]));
                        }
                        if di == j {
                            assert(frac_part(bs)[k - j - 1] == bs[k as int]);
                            assert(!is_digit_byte(frac_part(bs)[k - j - 1]));
                        }
                    }
                    return None;
                }
                proof {
                    let fs = bs.skip(j + 1);
                    assert(fs.take(k - j).drop_last() =~= fs.take(k - j - 1));
                    assert(fs.take(k - j).last() == bs[k as int]);
                    assert(all_digit_bytes(fs.take(k - j))) by {
                        assert(forall|p: int|
                            0 <= p < k - j ==> #[trigger] fs.take(k - j)[p] == bs[j + 1 + p]);
                    }
                    lemma_digits_value_upper(fs.take(k - j));
                    lemma_pow10_mono(fs.take(k - j).len(), 8);
                    reveal_with_fuel(pow10, 9);
                }
                facc = facc * 10 + ((d - 48) as i64);
                k = k + 1;
            }
            let mult: i64 = pow10_exec((8 - flen) as u64);
            proof {
                // The only dot is at `j`: every other position holds a digit.
                let di = dot_index(bs);
                assert(bs[di] == 46u8);
                assert(bs.skip(j + 1).take(n - j - 1) =~= bs.skip(j + 1));
                if di != j {
                    if di < j {
                        assert(is_digit_byte(bs.take(j as int)[di]));
                    } else {
                        assert(is_digit_byte(bs.skip(j + 1)[di - j - 1]));
                    }
                    assert(false);
                }
                assert(int_part(bs) =~= bs.take(j as int));
                assert(frac_part(bs) =~= bs.skip(j + 1));
                assert(bs.take(int_end as int) == bs.take(j as int));
                assert(valid_decimal(bs));
                // Bound the scaled fractional value below one whole unit.
                let fv = digits_value(frac_part(bs));
                let fl = frac_part(bs).len();
                lemma_digits_value_upper(frac_part(bs));
                lemma_digits_value_nonneg(frac_part(bs));
                lemma_pow10_mono((8 - fl) as nat, 8);
                lemma_mul_inequality(fv, pow10(fl) - 1, pow10((8 - fl) as nat));
                lemma_mul_is_distributive_sub_other_way(pow10((8 - fl) as nat), pow10(fl), 1);
                lemma_pow10_mul(fl);
                reveal_with_fuel(pow10, 9);
                assert(fv * pow10((8 - fl) as nat) < 100_000_000);
                assert(decimal_value(bs) == acc * (FIXED_SCALE as int) + facc * mult);
            }
            Some(acc * FIXED_SCALE + facc * mult)
        },
    }
}

} // verus!
