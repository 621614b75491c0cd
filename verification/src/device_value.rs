//! Parsing the numeric attribute values the devices expose: a brightness
//! or range file holds one decimal number, usually with a trailing newline.
//! The runtime layer reads the raw bytes; this module turns them into the
//! value, or nothing when the file does not hold a plain number.

use vstd::prelude::*;

verus! {

/// An ASCII whitespace byte: space, tab, line feed, vertical tab, form
/// feed or carriage return.
pub open spec fn is_space(b: u8) -> bool {
    b == 32 || b == 9 || b == 10 || b == 11 || b == 12 || b == 13
}

/// An ASCII decimal digit.
pub open spec fn is_digit(b: u8) -> bool {
    48 <= b <= 57
}

/// The bytes with leading whitespace dropped.
pub open spec fn trim_front(s: Seq<u8>) -> Seq<u8>
    decreases s.len(),
{
    if s.len() > 0 && is_space(s[0]) {
        trim_front(s.drop_first())
    } else {
        s
    }
}

/// The bytes with trailing whitespace dropped.
pub open spec fn trim_back(s: Seq<u8>) -> Seq<u8>
    decreases s.len(),
{
    if s.len() > 0 && is_space(s.last()) {
        trim_back(s.drop_last())
    } else {
        s
    }
}

/// The bytes with whitespace dropped on both sides.
pub open spec fn trimmed(s: Seq<u8>) -> Seq<u8> {
    trim_back(trim_front(s))
}

/// Whether every byte is a decimal digit.
pub open spec fn all_digits(s: Seq<u8>) -> bool {
    forall|i: int| 0 <= i < s.len() ==> is_digit(s[i])
}

/// The number a sequence of decimal digits denotes.
pub open spec fn digits_value(s: Seq<u8>) -> int
    decreases s.len(),
{
    if s.len() == 0 {
        0
    } else {
        10 * digits_value(s.drop_last()) + (s.last() - 48)
    }
}

/// Whether the bytes hold one well-formed value: at least one digit once
/// the whitespace is trimmed, nothing but digits, and a number that fits
/// the value's type.
pub open spec fn holds_value(s: Seq<u8>) -> bool {
    &&& trimmed(s).len() > 0
    &&& all_digits(trimmed(s))
    &&& digits_value(trimmed(s)) <= u32::MAX
}

/// A digit string denotes a non-negative number.
proof fn lemma_digits_value_nonneg(s: Seq<u8>)
    requires
        all_digits(s),
    ensures
        digits_value(s) >= 0,
    decreases s.len(),
{
    if s.len() > 0 {
        lemma_digits_value_nonneg(s.drop_last());
    }
}

/// Appending digits never shrinks the number they denote.
proof fn lemma_digits_value_prefix_le(s: Seq<u8>, i: int, j: int)
    requires
        all_digits(s),
        0 <= i <= j <= s.len(),
    ensures
        digits_value(s.subrange(0, i)) <= digits_value(s.subrange(0, j)),
    decreases j - i,
{
    if i < j {
        lemma_digits_value_prefix_le(s, i, j - 1);
        let shorter = s.subrange(0, j - 1);
        let longer = s.subrange(0, j);
        assert(longer.drop_last() =~= shorter);
        lemma_digits_value_nonneg(shorter);
        assert(digits_value(longer) == 10 * digits_value(shorter) + (longer.last() - 48));
    }
}

/// Parse one device attribute value: whitespace around the number is
/// ignored; the result is the number exactly when the bytes hold one that
/// fits, and nothing otherwise.
pub fn parse_value(bytes: &[u8]) -> (r: Option<u32>)
    ensures
        holds_value(bytes@) ==> r == Some(digits_value(trimmed(bytes@)) as u32),
        !holds_value(bytes@) ==> r == None::<u32>,
{
    let mut start: usize = 0;
    proof {
        assert(bytes@.subrange(0, bytes@.len() as int) =~= bytes@);
    }
    while start < bytes.len() && is_space_byte(bytes[start])
        invariant
            0 <= start <= bytes.len(),
            trim_front(bytes@) == trim_front(bytes@.subrange(start as int, bytes@.len() as int)),
        decreases bytes.len() - start,
    {
        proof {
            let rest = bytes@.subrange(start as int, bytes@.len() as int);
            assert(rest.drop_first() =~= bytes@.subrange(start as int + 1, bytes@.len() as int));
        }
        start = start + 1;
    }
    let mut end: usize = bytes.len();
    proof {
        let rest = bytes@.subrange(start as int, bytes@.len() as int);
        if start < bytes@.len() {
            assert(!is_space(rest[0]));
        }
        assert(trim_front(rest) == rest);
    }
    while end > start && is_space_byte(bytes[end - 1])
        invariant
            start <= end <= bytes.len(),
            trimmed(bytes@) == trim_back(bytes@.subrange(start as int, end as int)),
        decreases end,
    {
        proof {
            let here = bytes@.subrange(start as int, end as int);
            assert(here.drop_last() =~= bytes@.subrange(start as int, end as int - 1));
        }
        end = end - 1;
    }
    proof {
        let t = bytes@.subrange(start as int, end as int);
        if t.len() > 0 {
            assert(!is_space(t.last()));
        }
        assert(trim_back(t) == t);
        assert(trimmed(bytes@) == t);
    }

    let ghost t = bytes@.subrange(start as int, end as int);
    if end == start {
        return None;
    }

    let mut value: u32 = 0;
    let mut i: usize = start;
    while i < end
        invariant
            start <= i <= end,
            end <= bytes.len(),
            t == bytes@.subrange(start as int, end as int),
            trimmed(bytes@) == t,
            all_digits(t.subrange(0, i - start)),
            value == digits_value(t.subrange(0, i - start)),
        decreases end - i,
    {
        let b = bytes[i];
        if b < 48 || b > 57 {
            proof {
                assert(t[i - start] == b);
                assert(!is_digit(t[i - start]));
                assert(!all_digits(t));
            }
            return None;
        }
        let digit: u32 = (b - 48) as u32;
        if value > (u32::MAX - digit) / 10 {
            proof {
                let taken = t.subrange(0, i - start + 1);
                assert(taken.drop_last() =~= t.subrange(0, i - start));
                assert(taken.last() == b);
                assert(digits_value(taken) == 10 * value + digit);
                assert(digits_value(taken) > u32::MAX) by {
                    assert(value >= (u32::MAX - digit) / 10 + 1);
                    assert(10 * value >= 10 * ((u32::MAX - digit) / 10 + 1)) by (nonlinear_arith)
                        requires
                            value >= (u32::MAX - digit) / 10 + 1,
                    ;
                    vstd::arithmetic::div_mod::lemma_fundamental_div_mod(u32::MAX - digit, 10);
                    vstd::arithmetic::div_mod::lemma_mod_bound(u32::MAX - digit, 10);
                }
                if all_digits(t) {
                    lemma_digits_value_prefix_le(t, i - start + 1, t.len() as int);
                    assert(t.subrange(0, t.len() as int) =~= t);
                    assert(digits_value(t) > u32::MAX);
                }
                assert(!holds_value(bytes@));
            }
            return None;
        }
        proof {
            let taken = t.subrange(0, i - start + 1);
            assert(taken.drop_last() =~= t.subrange(0, i - start));
            assert(taken.last() == b);
            vstd::arithmetic::div_mod::lemma_fundamental_div_mod(u32::MAX - digit, 10);
            vstd::arithmetic::div_mod::lemma_mod_bound(u32::MAX - digit, 10);
            assert(10 * value + digit <= u32::MAX) by (nonlinear_arith)
                requires
                    value <= (u32::MAX - digit) / 10,
                    u32::MAX - digit == 10 * ((u32::MAX - digit) / 10) + (u32::MAX - digit) % 10,
                    (u32::MAX - digit) % 10 >= 0,
            ;
        }
        value = value * 10 + digit;
        i = i + 1;
    }
    proof {
        assert(t.subrange(0, t.len() as int) =~= t);
    }
    Some(value)
}

/// Whether one byte is ASCII whitespace.
fn is_space_byte(b: u8) -> (r: bool)
    ensures
        r == is_space(b),
{
    b == 32 || b == 9 || b == 10 || b == 11 || b == 12 || b == 13
}

} // verus!
