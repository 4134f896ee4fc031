//! Decimal integer literals: their grammar and the number they denote.

use vstd::prelude::*;
use vstd::string::StrSliceExecFns;

use crate::chars::digit_of;
use crate::chars::digit_val;
use crate::chars::is_digit;

verus! {

/// Every character of `s` is a decimal digit.
pub open spec fn all_digits(s: Seq<char>) -> bool {
    forall|k: int| 0 <= k < s.len() ==> is_digit(s[k])
}

/// The number a run of decimal digits denotes, most significant digit first.
pub open spec fn digits_value(s: Seq<char>) -> int
    decreases s.len(),
{
    if s.len() == 0 {
        0
    } else {
        digits_value(s.drop_last()) * 10 + digit_val(s.last())
    }
}

/// `s` opens with an explicit sign character.
pub open spec fn has_sign(s: Seq<char>) -> bool {
    s.len() > 0 && (s[0] == '+' || s[0] == '-')
}

/// `s` opens with a minus sign.
pub open spec fn is_negative(s: Seq<char>) -> bool {
    s.len() > 0 && s[0] == '-'
}

/// The digit run of an integer literal: everything after the sign, if any.
pub open spec fn digits_part(s: Seq<char>) -> Seq<char> {
    if has_sign(s) {
        s.drop_first()
    } else {
        s
    }
}

/// `s` is an integer literal: an optional sign followed by at least one
/// decimal digit. This is the grammar the built-in signed integer types
/// parse; the unsigned ones reject the `-` sign as well.
pub open spec fn int_shape(s: Seq<char>) -> bool {
    digits_part(s).len() > 0 && all_digits(digits_part(s))
}

/// The integer an integer literal denotes.
pub open spec fn int_text_value(s: Seq<char>) -> int
    recommends
        int_shape(s),
{
    if is_negative(s) {
        -digits_value(digits_part(s))
    } else {
        digits_value(digits_part(s))
    }
}

/// A digit run denotes a non-negative number.
proof fn lemma_digits_value_nonneg(s: Seq<char>)
    requires
        all_digits(s),
    ensures
        digits_value(s) >= 0,
    decreases s.len(),
{
    if s.len() > 0 {
        assert forall|k: int| 0 <= k < s.drop_last().len() implies is_digit(
            s.drop_last()[k],
        ) by {
            assert(s.drop_last()[k] == s[k]);
        }
        lemma_digits_value_nonneg(s.drop_last());
    }
}

/// Appending one digit multiplies the denoted number by ten and adds the
/// digit's value.
proof fn lemma_digits_value_push(s: Seq<char>, c: char)
    ensures
        digits_value(s.push(c)) == digits_value(s) * 10 + digit_val(c),
{
    assert(s.push(c).drop_last() =~= s);
    assert(s.push(c).last() == c);
}

/// A prefix of a digit run denotes no more than the whole run.
proof fn lemma_digits_value_take_le(s: Seq<char>, m: int)
    requires
        all_digits(s),
        0 <= m <= s.len(),
    ensures
        digits_value(s.take(m)) <= digits_value(s),
    decreases s.len() - m,
{
    if m == s.len() {
        assert(s.take(m) =~= s);
    } else {
        assert forall|k: int| 0 <= k < s.take(m).len() implies is_digit(s.take(m)[k]) by {
            assert(s.take(m)[k] == s[k]);
        }
        lemma_digits_value_nonneg(s.take(m));
        assert(s.take(m + 1) =~= s.take(m).push(s[m]));
        lemma_digits_value_push(s.take(m), s[m]);
        lemma_digits_value_take_le(s, m + 1);
    }
}

/// Reads the digit run of `s` that starts at position `start` and reaches to
/// the end, as an unsigned 64-bit value. `None` when the run is empty, holds
/// a character that is no digit, or denotes a number above `u64::MAX`.
pub fn parse_digit_run(s: &str, start: usize) -> (r: Option<u64>)
    requires
        start as int <= s@.len(),
    ensures
        ({
            let d = s@.subrange(start as int, s@.len() as int);
            match r {
                Some(v) => d.len() > 0 && all_digits(d) && digits_value(d) == v,
                None => d.len() == 0 || !all_digits(d) || digits_value(d) > u64::MAX,
            }
        }),
{
    let ghost d = s@.subrange(start as int, s@.len() as int);
    let n = s.unicode_len();
    if start >= n {
        return None;
    }
    let mut acc: u64 = 0;
    let mut i = start;
    while i < n
        invariant
            start <= i <= n,
            n == s@.len(),
            d == s@.subrange(start as int, n as int),
            all_digits(s@.subrange(start as int, i as int)),
            digits_value(s@.subrange(start as int, i as int)) == acc,
        decreases n - i,
    {
        let ghost p = s@.subrange(start as int, i as int);
        let c = s.get_char(i);
        proof {
            assert(d[i - start] == s@[i as int]);
        }
        match digit_of(c) {
            None => {
                proof {
                    assert(!is_digit(d[i - start]));
                }
                return None;
            },
            Some(dg) => {
                proof {
                    assert(s@.subrange(start as int, i as int + 1) =~= p.push(s@[i as int]));
                    lemma_digits_value_push(p, s@[i as int]);
                }
                let stepped = match acc.checked_mul(10) {
                    Some(m) => m.checked_add(dg as u64),
                    None => None,
                };
                match stepped {
                    Some(v) => {
                        acc = v;
                    },
                    None => {
                        proof {
                            if all_digits(d) {
                                assert(d.take(i as int + 1 - start) =~= s@.subrange(
                                    start as int,
                                    i as int + 1,
                                ));
                                lemma_digits_value_take_le(d, i as int + 1 - start);
                            }
                        }
                        return None;
                    },
                }
            },
        }
        i += 1;
    }
    proof {
        assert(s@.subrange(start as int, i as int) == d);
    }
    Some(acc)
}

/// Splits an integer literal into its sign and the number its digit run
/// denotes. `None` when `s` is no integer literal at all, or when its digit
/// run denotes a number above `u64::MAX`.
pub fn parse_int_text(s: &str) -> (r: Option<(bool, u64)>)
    ensures
        match r {
            Some(p) => int_shape(s@) && p.0 == is_negative(s@) && p.1 == digits_value(
                digits_part(s@),
            ),
            None => !int_shape(s@) || digits_value(digits_part(s@)) > u64::MAX,
        },
{
    let n = s.unicode_len();
    if n == 0 {
        return None;
    }
    let c0 = s.get_char(0);
    let neg = c0 == '-';
    let start: usize = if c0 == '-' || c0 == '+' {
        1
    } else {
        0
    };
    proof {
        if start == 1 {
            assert(digits_part(s@) =~= s@.subrange(1, n as int));
        } else {
            assert(digits_part(s@) =~= s@.subrange(0, n as int));
        }
    }
    match parse_digit_run(s, start) {
        Some(v) => Some((neg, v)),
        None => None,
    }
}

} // verus!
