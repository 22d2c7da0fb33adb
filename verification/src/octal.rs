//! Octal numeric fields: fixed-width runs of the ASCII digits `'0'` to `'7'`,
//! most significant digit first.

use vstd::prelude::*;
use crate::error::TarError;

verus! {

/// The most digits that `parse_octal` takes: 21 octal digits are 63 bits.
pub const MAX_OCTAL_DIGITS: usize = 21;

/// Whether `b` is one of the ASCII digits `'0'` to `'7'`.
pub open spec fn is_octal_digit(b: u8) -> bool {
    48 <= b <= 55
}

/// Whether every byte of `bytes` is an octal digit.
pub open spec fn all_octal(bytes: Seq<u8>) -> bool {
    forall|i: int| 0 <= i < bytes.len() ==> is_octal_digit(#[trigger] bytes[i])
}

/// The first byte of `bytes` that is not an octal digit, if there is one.
pub open spec fn first_non_octal(bytes: Seq<u8>) -> Option<u8>
    decreases bytes.len(),
{
    if bytes.len() == 0 {
        None
    } else if !is_octal_digit(bytes[0]) {
        Some(bytes[0])
    } else {
        first_non_octal(bytes.drop_first())
    }
}

/// The number that a run of octal digits denotes, the first digit being the
/// most significant: eight times what the digits before the last denote,
/// plus the last digit.
pub open spec fn octal_value(digits: Seq<u8>) -> nat
    decreases digits.len(),
{
    if digits.len() == 0 {
        0
    } else {
        (8 * octal_value(digits.drop_last()) + (digits.last() - 48)) as nat
    }
}

/// What a numeric field holds: the number its digits denote, or the first
/// byte that is not an octal digit.
pub open spec fn decode_octal(bytes: Seq<u8>) -> Result<nat, TarError> {
    match first_non_octal(bytes) {
        Some(byte) => Err(TarError::InvalidOctalDigit { byte }),
        None => Ok(octal_value(bytes)),
    }
}

/// `8` to the power `n`.
pub open spec fn pow8(n: nat) -> nat
    decreases n,
{
    if n == 0 {
        1
    } else {
        8 * pow8((n - 1) as nat)
    }
}

/// A field decodes to a number exactly when all its bytes are octal digits.
pub proof fn lemma_decode_octal_ok(bytes: Seq<u8>)
    ensures
        decode_octal(bytes) is Ok <==> all_octal(bytes),
    decreases bytes.len(),
{
    if bytes.len() > 0 {
        let rest = bytes.drop_first();
        lemma_decode_octal_ok(rest);
        if is_octal_digit(bytes[0]) {
            if all_octal(rest) {
                assert forall|i: int| 0 <= i < bytes.len() implies is_octal_digit(
                    #[trigger] bytes[i],
                ) by {
                    if i > 0 {
                        assert(bytes[i] == rest[i - 1]);
                    }
                }
            } else {
                let j = choose|j: int| 0 <= j < rest.len() && !is_octal_digit(#[trigger] rest[j]);
                assert(bytes[j + 1] == rest[j]);
            }
        }
    }
}

/// If the bytes before position `i` are octal digits and the byte at `i` is
/// not, the field is rejected with the byte at `i`.
pub proof fn lemma_decode_octal_err(bytes: Seq<u8>, i: int)
    requires
        0 <= i < bytes.len(),
        all_octal(bytes.take(i)),
        !is_octal_digit(bytes[i]),
    ensures
        decode_octal(bytes) == Err::<nat, TarError>(TarError::InvalidOctalDigit { byte: bytes[i] }),
    decreases i,
{
    if i > 0 {
        let rest = bytes.drop_first();
        assert(bytes.take(i)[0] == bytes[0]);
        assert forall|j: int| 0 <= j < i - 1 implies is_octal_digit(
            #[trigger] rest.take(i - 1)[j],
        ) by {
            assert(rest.take(i - 1)[j] == bytes.take(i)[j + 1]);
        }
        lemma_decode_octal_err(rest, i - 1);
    }
}

/// A run of `n` octal digits denotes a number below `8^n`.
pub proof fn lemma_octal_value_bound(digits: Seq<u8>)
    requires
        all_octal(digits),
    ensures
        octal_value(digits) < pow8(digits.len()),
    decreases digits.len(),
{
    if digits.len() > 0 {
        let front = digits.drop_last();
        assert forall|i: int| 0 <= i < front.len() implies is_octal_digit(#[trigger] front[i]) by {
            assert(front[i] == digits[i]);
        }
        lemma_octal_value_bound(front);
        assert(is_octal_digit(digits[digits.len() - 1]));
    }
}

/// `8^n` grows with `n`.
pub proof fn lemma_pow8_monotonic(m: nat, n: nat)
    requires
        m <= n,
    ensures
        pow8(m) <= pow8(n),
    decreases n,
{
    if m < n {
        lemma_pow8_monotonic(m, (n - 1) as nat);
    }
}

/// Decodes a run of octal digits.
///
/// Returns the number the digits denote, or, if some byte is not an octal
/// digit, `InvalidOctalDigit` with the first such byte.
pub fn parse_octal(bytes: &[u8]) -> (r: Result<u64, TarError>)
    requires
        bytes@.len() <= MAX_OCTAL_DIGITS,
    ensures
        match decode_octal(bytes@) {
            Ok(value) => value <= u64::MAX && r == Ok::<u64, TarError>(value as u64),
            Err(e) => r == Err::<u64, TarError>(e),
        },
{
    let mut acc: u64 = 0;
    let mut i: usize = 0;
    while i < bytes.len()
        invariant
            i <= bytes@.len() <= MAX_OCTAL_DIGITS,
            all_octal(bytes@.take(i as int)),
            acc == octal_value(bytes@.take(i as int)),
            acc < pow8(i as nat),
        decreases bytes@.len() - i,
    {
        let b: u8 = bytes[i];
        if b < 48 || b > 55 {
            proof {
                lemma_decode_octal_err(bytes@, i as int);
            }
            return Err(TarError::InvalidOctalDigit { byte: b });
        }
        proof {
            let next = bytes@.take(i + 1);
            assert(next.drop_last() =~= bytes@.take(i as int));
            assert(next.last() == b);
            assert forall|j: int| 0 <= j < next.len() implies is_octal_digit(#[trigger] next[j]) by {
                if j < i {
                    assert(bytes@.take(i as int)[j] == next[j]);
                }
            }
            lemma_pow8_monotonic((i + 1) as nat, 21);
            assert(pow8(21) == 0x8000_0000_0000_0000) by {
                reveal_with_fuel(pow8, 22);
            }
        }
        acc = acc * 8 + (b - 48) as u64;
        i += 1;
    }
    proof {
        assert(bytes@.take(i as int) =~= bytes@);
        lemma_decode_octal_ok(bytes@);
    }
    Ok(acc)
}

} // verus!
