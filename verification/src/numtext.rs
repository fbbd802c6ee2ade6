//! Reading integers out of text, with the same acceptance rules as the
//! standard library's integer parsing: an optional sign, then one or
//! more decimal digits, rejecting anything else and values out of range.

use vstd::prelude::*;

use crate::text::chars_of;
use crate::tokenizer::is_digit_c;

verus! {

/// Numeric value of a digit character.
pub open spec fn digit_val(c: char) -> int {
    c as u32 - '0' as u32
}

/// Whether every character of `s` is a decimal digit.
pub open spec fn all_digits(s: Seq<char>) -> bool {
    forall|k: int| 0 <= k < s.len() ==> is_digit_c(#[trigger] s[k])
}

/// The number denoted by a digit string.
pub open spec fn digits_val(s: Seq<char>) -> int
    decreases s.len(),
{
    if s.len() == 0 {
        0
    } else {
        digits_val(s.drop_last()) * 10 + digit_val(s.last())
    }
}

/// The signed integer denoted by `s`, if `s` is an optional sign
/// followed by one or more digits and the value fits an `i64`.
pub open spec fn sp_parse_int(s: Seq<char>) -> Option<i64> {
    let ds = if s.len() > 0 && (s[0] == '+' || s[0] == '-') {
        s.drop_first()
    } else {
        s
    };
    let neg = s.len() > 0 && s[0] == '-';
    if ds.len() == 0 || !all_digits(ds) {
        None
    } else {
        let v = if neg {
            -digits_val(ds)
        } else {
            digits_val(ds)
        };
        if i64::MIN <= v <= i64::MAX {
            Some(v as i64)
        } else {
            None
        }
    }
}

/// A digit string's value is nonnegative.
proof fn lemma_digits_val_nonneg(s: Seq<char>)
    requires
        all_digits(s),
    ensures
        digits_val(s) >= 0,
    decreases s.len(),
{
    if s.len() > 0 {
        assert(all_digits(s.drop_last())) by {
            assert(forall|k: int|
                0 <= k < s.len() - 1 ==> is_digit_c(#[trigger] s.drop_last()[k]) == is_digit_c(
                    s[k],
                ));
        }
        lemma_digits_val_nonneg(s.drop_last());
    }
}

/// A longer digit prefix denotes at least as large a number.
proof fn lemma_digits_val_mono(s: Seq<char>, k: int)
    requires
        all_digits(s),
        0 <= k <= s.len(),
    ensures
        digits_val(s.take(k)) <= digits_val(s),
    decreases s.len() - k,
{
    assert(all_digits(s.take(k))) by {
        assert(forall|j: int|
            0 <= j < k ==> is_digit_c(#[trigger] s.take(k)[j]) == is_digit_c(s[j]));
    }
    if k < s.len() {
        lemma_digits_val_mono(s, k + 1);
        assert(s.take(k + 1).drop_last() =~= s.take(k));
        lemma_digits_val_nonneg(s.take(k));
        assert(digits_val(s.take(k + 1)) == digits_val(s.take(k)) * 10 + digit_val(
            s.take(k + 1).last(),
        ));
        assert(digits_val(s.take(k)) * 10 >= digits_val(s.take(k))) by (nonlinear_arith)
            requires
                digits_val(s.take(k)) >= 0,
        ;
    } else {
        assert(s.take(k) =~= s);
    }
}

/// Reads an integer from text, as the standard library's parse does.
pub fn parse_int(s: &str) -> (r: Option<i64>)
    ensures
        r == sp_parse_int(s@),
{
    let cs = chars_of(s);
    let mut i: usize = 0;
    let mut neg = false;
    if cs.len() > 0 && (cs[0] == '+' || cs[0] == '-') {
        neg = cs[0] == '-';
        i = 1;
    }
    let ghost ds = if s@.len() > 0 && (s@[0] == '+' || s@[0] == '-') {
        s@.drop_first()
    } else {
        s@
    };
    proof {
        assert(ds =~= s@.skip(i as int));
    }
    if i >= cs.len() {
        return None;
    }
    let start = i;
    let mut acc: u64 = 0;
    while i < cs.len()
        invariant
            start <= i <= cs@.len(),
            cs@ == s@,
            start < cs@.len(),
            ds == s@.skip(start as int),
            start == 0 || start == 1,
            neg == (s@.len() > 0 && s@[0] == '-'),
            (start == 1) == (s@.len() > 0 && (s@[0] == '+' || s@[0] == '-')),
            all_digits(s@.subrange(start as int, i as int)),
            acc == digits_val(s@.subrange(start as int, i as int)),
            acc <= 9223372036854775808u64,
        decreases cs@.len() - i,
    {
        let c = cs[i];
        if !('0' as u32 <= c as u32 && c as u32 <= '9' as u32) {
            proof {
                assert(!is_digit_c(ds[i - start]));
            }
            return None;
        }
        let d: u64 = (c as u32 - '0' as u32) as u64;
        if acc > 1844674407370955160u64 {
            proof {
                assert(s@.skip(0) =~= s@);
                assert(ds =~= s@.subrange(start as int, s@.len() as int));
                lemma_out_of_range(s@, start as int, i as int, neg, acc as int, d as int);
                assert(s@.len() > 0 && (s@[0] == '+' || s@[0] == '-') ==> ds == s@.drop_first());
                assert(!(s@.len() > 0 && (s@[0] == '+' || s@[0] == '-')) ==> ds == s@);
            }
            return None;
        }
        let next: u64 = acc * 10 + d;
        if next > 9223372036854775808u64 {
            proof {
                assert(s@.skip(0) =~= s@);
                assert(ds =~= s@.subrange(start as int, s@.len() as int));
                lemma_out_of_range(s@, start as int, i as int, neg, acc as int, d as int);
                assert(s@.len() > 0 && (s@[0] == '+' || s@[0] == '-') ==> ds == s@.drop_first());
                assert(!(s@.len() > 0 && (s@[0] == '+' || s@[0] == '-')) ==> ds == s@);
            }
            return None;
        }
        proof {
            assert(s@.subrange(start as int, i as int + 1).drop_last() =~= s@.subrange(
                start as int,
                i as int,
            ));
            assert(s@.subrange(start as int, i as int + 1).last() == s@[i as int]);
        }
        acc = next;
        i = i + 1;
    }
    proof {
        assert(s@.subrange(start as int, s@.len() as int) =~= ds);
    }
    if neg {
        if acc == 9223372036854775808u64 {
            Some(i64::MIN)
        } else {
            Some(-(acc as i64))
        }
    } else {
        if acc > 9223372036854775807u64 {
            proof {
                assert(sp_parse_int(s@) is None);
            }
            None
        } else {
            Some(acc as i64)
        }
    }
}

/// When a digit prefix already exceeds the `i64` range, the whole digit
/// string is out of range, whatever its sign.
proof fn lemma_out_of_range(s: Seq<char>, start: int, i: int, neg: bool, acc: int, d: int)
    requires
        0 <= start <= i < s.len(),
        acc == digits_val(s.subrange(start, i)),
        acc >= 0,
        0 <= d <= 9,
        d == digit_val(s[i]),
        is_digit_c(s[i]),
        acc * 10 + d > 9223372036854775808,
        all_digits(s.subrange(start, i)),
    ensures
        all_digits(s.subrange(start, s.len() as int)) ==> (digits_val(
            s.subrange(start, s.len() as int),
        ) > 9223372036854775808),
{
    let ds = s.subrange(start, s.len() as int);
    if all_digits(ds) {
        lemma_digits_val_mono(ds, i + 1 - start);
        assert(ds.take(i + 1 - start) =~= s.subrange(start, i + 1));
        assert(s.subrange(start, i + 1).drop_last() =~= s.subrange(start, i));
        assert(digits_val(s.subrange(start, i + 1)) == acc * 10 + d);
    }
}

} // verus!
