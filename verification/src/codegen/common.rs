//! Helpers shared by the validations of `#[derive]` inputs.

use vstd::prelude::*;
use vstd::string::StringSliceAdditionalSpecFns;

use super::error::IntErrorKind;

verus! {

/// Handy extension of [`Option`] methods.
pub trait OptionExt: Sized {
    /// Type of the value wrapped into this [`Option`].
    type Inner;

    /// This [`Option`] as a plain one.
    spec fn as_option(&self) -> Option<Self::Inner>;

    /// Transforms the `Option<T>` into a `Result<(), E>`, mapping `None` to
    /// `Ok(())` and `Some(v)` to `Err(err(v))`.
    fn none_or_else<E, F>(self, err: F) -> (res: Result<(), E>) where F: FnOnce(Self::Inner) -> E
        requires
            forall|v: Self::Inner| call_requires(err, (v,)),
        ensures
            match self.as_option() {
                None => res == Ok::<(), E>(()),
                Some(v) => res matches Err(e) && call_ensures(err, (v,), e),
            },
    ;
}

impl<T> OptionExt for Option<T> {
    type Inner = T;

    open spec fn as_option(&self) -> Option<T> {
        *self
    }

    fn none_or_else<E, F>(self, err: F) -> (res: Result<(), E>) where F: FnOnce(T) -> E {
        match self {
            Some(v) => Err(err(v)),
            None => Ok(()),
        }
    }
}

/// Whether `b` is the byte of a decimal digit.
pub open spec fn is_digit(b: u8) -> bool {
    48 <= b <= 57
}

/// The number the decimal digits `digits` stand for.
pub open spec fn decimal_value(digits: Seq<u8>) -> nat
    decreases digits.len(),
{
    if digits.len() == 0 {
        0
    } else {
        decimal_value(digits.drop_last()) * 10 + (digits.last() - 48) as nat
    }
}

/// Whether all the bytes of `d` are decimal digits.
pub open spec fn all_digits(d: Seq<u8>) -> bool {
    forall|i: int| 0 <= i < d.len() ==> is_digit(#[trigger] d[i])
}

/// Whether `k` is the position of the first byte of `d` that is not a decimal
/// digit.
pub open spec fn first_non_digit(d: Seq<u8>, k: int) -> bool {
    &&& 0 <= k < d.len()
    &&& !is_digit(d[k])
    &&& all_digits(d.take(k))
}

/// The bytes of `s` once an optional leading `+` is dropped.
pub open spec fn unsigned_digits(s: Seq<u8>) -> Seq<u8> {
    if s.len() > 0 && s[0] == 43 {
        s.drop_first()
    } else {
        s
    }
}

/// What parsing the text `s` as a non-zero `u16` gives, the way the standard
/// library parses unsigned integers: an optional leading `+`, then decimal
/// digits read from left to right, the first failure (a byte that is not a
/// digit, or a value too large) being reported.
pub open spec fn non_zero_u16_of(s: Seq<u8>) -> Result<u16, IntErrorKind> {
    let d = unsigned_digits(s);
    if s.len() == 0 {
        Err(IntErrorKind::Empty)
    } else if s.len() == 1 && (s[0] == 43 || s[0] == 45) {
        Err(IntErrorKind::InvalidDigit)
    } else if exists|k: int| first_non_digit(d, k) {
        if decimal_value(d.take(choose|k: int| first_non_digit(d, k))) > u16::MAX {
            Err(IntErrorKind::PosOverflow)
        } else {
            Err(IntErrorKind::InvalidDigit)
        }
    } else if decimal_value(d) > u16::MAX {
        Err(IntErrorKind::PosOverflow)
    } else if decimal_value(d) == 0 {
        Err(IntErrorKind::Zero)
    } else {
        Ok(decimal_value(d) as u16)
    }
}

/// There is at most one first byte that is not a digit.
proof fn lemma_first_non_digit_unique(d: Seq<u8>, a: int, b: int)
    requires
        first_non_digit(d, a),
        first_non_digit(d, b),
    ensures
        a == b,
{
    if a < b {
        assert(d.take(b)[a] == d[a]);
    } else if b < a {
        assert(d.take(a)[b] == d[b]);
    }
}

/// What parsing gives, in terms of the digits: the value of a run of decimal
/// digits between `1` and `u16::MAX` is parsed as it is; a parsed value is
/// never zero and is the value of the digits; the zero error comes only of
/// digits whose value is zero.
pub proof fn lemma_non_zero_u16_of(s: Seq<u8>)
    ensures
        s.len() > 0 && all_digits(s) && 1 <= decimal_value(s) <= u16::MAX ==> non_zero_u16_of(s)
            == Ok::<u16, IntErrorKind>(decimal_value(s) as u16),
        non_zero_u16_of(s) matches Ok(n) ==> n != 0 && n == decimal_value(unsigned_digits(s))
            && all_digits(unsigned_digits(s)),
        non_zero_u16_of(s) == Err::<u16, IntErrorKind>(IntErrorKind::Zero) ==> all_digits(
            unsigned_digits(s),
        ) && decimal_value(unsigned_digits(s)) == 0,
{
    let d = unsigned_digits(s);
    if exists|k: int| first_non_digit(d, k) {
        let k = choose|k: int| first_non_digit(d, k);
        assert(first_non_digit(d, k));
    } else {
        assert forall|i: int| 0 <= i < d.len() implies is_digit(#[trigger] d[i]) by {
            if !is_digit(d[i]) {
                lemma_first_non_digit_exists(d, i);
            }
        }
    }
    if s.len() > 0 && all_digits(s) {
        assert(s[0] != 43 && s[0] != 45);
        assert(d == s);
        assert(!exists|k: int| first_non_digit(d, k));
    }
}

/// Where some byte is not a digit, there is a first one.
proof fn lemma_first_non_digit_exists(d: Seq<u8>, i: int)
    requires
        0 <= i < d.len(),
        !is_digit(d[i]),
    ensures
        exists|k: int| first_non_digit(d, k),
    decreases i,
{
    if all_digits(d.take(i)) {
        assert(first_non_digit(d, i));
    } else {
        let j = choose|j: int| 0 <= j < i && !is_digit(#[trigger] d.take(i)[j]);
        assert(d.take(i)[j] == d[j]);
        lemma_first_non_digit_exists(d, j);
    }
}

/// Parses the text `s`, the base-10 digits of an integer literal, as a
/// non-zero `u16`.
pub fn parse_non_zero_u16(s: &str) -> (res: Result<u16, IntErrorKind>)
    ensures
        res == non_zero_u16_of(s.spec_bytes()),
        s.spec_bytes().len() > 0 && all_digits(s.spec_bytes()) && 1 <= decimal_value(s.spec_bytes())
            <= u16::MAX ==> res == Ok::<u16, IntErrorKind>(decimal_value(s.spec_bytes()) as u16),
        res matches Ok(n) ==> n != 0 && n == decimal_value(unsigned_digits(s.spec_bytes()))
            && all_digits(unsigned_digits(s.spec_bytes())),
        res == Err::<u16, IntErrorKind>(IntErrorKind::Zero) ==> all_digits(
            unsigned_digits(s.spec_bytes()),
        ) && decimal_value(unsigned_digits(s.spec_bytes())) == 0,
{
    proof {
        lemma_non_zero_u16_of(s.spec_bytes());
    }
    let bytes = s.as_bytes();
    assert(bytes@ == s.spec_bytes());
    let len = bytes.len();
    if len == 0 {
        return Err(IntErrorKind::Empty);
    }
    if len == 1 && (bytes[0] == 43 || bytes[0] == 45) {
        return Err(IntErrorKind::InvalidDigit);
    }
    let start: usize = if bytes[0] == 43 {
        1
    } else {
        0
    };
    let ghost d = unsigned_digits(bytes@);
    assert(d =~= bytes@.subrange(start as int, len as int));
    // The value so far, saturated just above `u16::MAX`.
    let mut value: u32 = 0;
    let mut i: usize = start;
    while i < len
        invariant
            len == bytes@.len(),
            bytes@ == s.spec_bytes(),
            start <= i <= len,
            start <= 1,
            len > start,
            d == unsigned_digits(bytes@),
            d == bytes@.subrange(start as int, len as int),
            all_digits(d.take(i - start)),
            value == if decimal_value(d.take(i - start)) > 65535 {
                65536
            } else {
                decimal_value(d.take(i - start))
            },
        decreases len - i,
    {
        let ghost k = i - start;
        assert(d[k] == bytes@[i as int]);
        if !(48 <= bytes[i] && bytes[i] <= 57) {
            proof {
                assert(first_non_digit(d, k));
                lemma_first_non_digit_unique(d, k, choose|j: int| first_non_digit(d, j));
            }
            if value > 65535 {
                return Err(IntErrorKind::PosOverflow);
            } else {
                return Err(IntErrorKind::InvalidDigit);
            }
        }
        assert(d.take(k + 1).drop_last() =~= d.take(k));
        assert(d.take(k + 1).last() == d[k]);
        let digit = (bytes[i] - 48) as u32;
        if value <= 65535 {
            value = value * 10 + digit;
            if value > 65535 {
                value = 65536;
            }
        }
        i += 1;
        assert(all_digits(d.take(k + 1))) by {
            assert forall|j: int| 0 <= j < k + 1 implies is_digit(#[trigger] d.take(k + 1)[j]) by {
                if j < k {
                    assert(d.take(k + 1)[j] == d.take(k)[j]);
                }
            }
        }
    }
    assert(d.take(len - start) =~= d);
    assert(!exists|k: int| first_non_digit(d, k));
    if value > 65535 {
        Err(IntErrorKind::PosOverflow)
    } else if value == 0 {
        Err(IntErrorKind::Zero)
    } else {
        Ok(value as u16)
    }
}

} // verus!
