use vstd::prelude::*;

verus! {

use vstd::string::StrSliceExecFns;

/// Why a numeric field value failed to decode.
#[derive(Clone, Copy, PartialEq, Eq, Debug)]
pub enum NumErrKind {
    /// The value is empty.
    Empty,
    /// A character outside `0`..=`9` was met.
    NonDigit,
    /// The digits exceed the unsigned 64-bit range.
    Overflow,
}

/// Whether `c` is a decimal digit.
pub open spec fn is_digit(c: char) -> bool {
    ('0' as u32) <= (c as u32) && (c as u32) <= ('9' as u32)
}

/// The numeric value of the digit `c`.
pub open spec fn digit_val(c: char) -> int {
    (c as u32) - ('0' as u32)
}

/// Left-to-right decimal accumulation over `s` from index `i`, exactly as the
/// decoder performs it: the first non-digit or the first overflowing step
/// decides the error.
pub open spec fn dec_value_at(s: Seq<char>, i: int, acc: u64) -> Result<u64, NumErrKind>
    decreases s.len() - i,
{
    if i < 0 || i >= s.len() {
        Ok(acc)
    } else if !is_digit(s[i]) {
        Err(NumErrKind::NonDigit)
    } else if acc * 10 + digit_val(s[i]) > u64::MAX {
        Err(NumErrKind::Overflow)
    } else {
        dec_value_at(s, i + 1, (acc * 10 + digit_val(s[i])) as u64)
    }
}

/// What decoding a numeric field value yields: base-10 only, no sign, no
/// separators; leading zeros are accepted.
pub open spec fn spec_dec_u64(s: Seq<char>) -> Result<u64, NumErrKind> {
    if s.len() == 0 {
        Err(NumErrKind::Empty)
    } else {
        dec_value_at(s, 0, 0)
    }
}

/// The mathematical base-10 value of `s` from index `i`, folded from the
/// left onto the seed `acc`, with no range limit.
pub open spec fn dec_fold(s: Seq<char>, i: int, acc: int) -> int
    decreases s.len() - i,
{
    if i < 0 || i >= s.len() {
        acc
    } else {
        dec_fold(s, i + 1, acc * 10 + digit_val(s[i]))
    }
}

/// The mathematical base-10 value of `s` read as a decimal numeral.
pub open spec fn dec_value(s: Seq<char>) -> int {
    dec_fold(s, 0, 0)
}

/// Whether every character of `s` is a decimal digit.
pub open spec fn all_digits(s: Seq<char>) -> bool {
    forall|i: int| 0 <= i < s.len() ==> is_digit(s[i])
}

/// The fold can only grow its seed while it runs over digits.
proof fn lemma_dec_fold_mono(s: Seq<char>, i: int, acc: int)
    requires
        0 <= i <= s.len(),
        acc >= 0,
        forall|j: int| i <= j < s.len() ==> is_digit(s[j]),
    ensures
        dec_fold(s, i, acc) >= acc,
    decreases s.len() - i,
{
    if i < s.len() {
        lemma_dec_fold_mono(s, i + 1, acc * 10 + digit_val(s[i]));
    }
}

/// The checked accumulation succeeds exactly when the remaining characters
/// are all digits and the unbounded fold stays within the 64-bit range, and
/// then it computes that fold.
proof fn lemma_dec_at_ok(s: Seq<char>, i: int, acc: u64)
    requires
        0 <= i <= s.len(),
    ensures
        dec_value_at(s, i, acc) is Ok <==> ((forall|j: int| i <= j < s.len() ==> is_digit(s[j]))
            && dec_fold(s, i, acc as int) <= u64::MAX),
        dec_value_at(s, i, acc) is Ok ==> dec_value_at(s, i, acc) == Ok::<u64, NumErrKind>(
            dec_fold(s, i, acc as int) as u64,
        ),
    decreases s.len() - i,
{
    if i < s.len() && is_digit(s[i]) {
        let step = acc * 10 + digit_val(s[i]);
        if step > u64::MAX {
            if forall|j: int| i <= j < s.len() ==> is_digit(s[j]) {
                lemma_dec_fold_mono(s, i + 1, step);
            }
        } else {
            lemma_dec_at_ok(s, i + 1, step as u64);
        }
    }
}

/// A numeric field value decodes successfully exactly when it is a non-empty
/// all-digit string whose value fits in 64 bits, and then to that value.
pub proof fn lemma_dec_u64_ok(s: Seq<char>)
    ensures
        spec_dec_u64(s) is Ok <==> (s.len() > 0 && all_digits(s) && dec_value(s) <= u64::MAX),
        spec_dec_u64(s) is Ok ==> spec_dec_u64(s) == Ok::<u64, NumErrKind>(dec_value(s) as u64),
{
    if s.len() > 0 {
        lemma_dec_at_ok(s, 0, 0);
    }
}

/// Decodes a decimal numeral into a `u64`, left to right.
pub fn dec_u64(s: &str) -> (r: Result<u64, NumErrKind>)
    ensures
        r == spec_dec_u64(s@),
{
    let n = s.unicode_len();
    if n == 0 {
        return Err(NumErrKind::Empty);
    }
    let mut acc: u64 = 0;
    let mut i: usize = 0;
    while i < n
        invariant
            i <= n,
            n == s@.len(),
            n > 0,
            dec_value_at(s@, 0, 0) == dec_value_at(s@, i as int, acc),
        decreases n - i,
    {
        let c = s.get_char(i);
        let u = c as u32;
        if u < 48 || u > 57 {
            return Err(NumErrKind::NonDigit);
        }
        let d: u64 = (u - 48) as u64;
        match acc.checked_mul(10) {
            Some(m) => match m.checked_add(d) {
                Some(next) => {
                    acc = next;
                    i += 1;
                },
                None => {
                    return Err(NumErrKind::Overflow);
                },
            },
            None => {
                return Err(NumErrKind::Overflow);
            },
        }
    }
    Ok(acc)
}

} // verus!
