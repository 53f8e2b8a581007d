use vstd::prelude::*;

use crate::error::{HistoryError, InvalidReason};
use crate::history::History;

verus! {

/// A decimal digit, `'0'` through `'9'`.
pub open spec fn is_decimal_digit(c: char) -> bool {
    '0' as int <= c as int <= '9' as int
}

/// The numeric value of one digit; zero for anything else, so that
/// `number_value` is total.
pub open spec fn digit_value(c: char) -> int {
    if is_decimal_digit(c) {
        c as int - '0' as int
    } else {
        0
    }
}

pub open spec fn all_decimal_digits(s: Seq<char>) -> bool {
    forall|i: int| 0 <= i < s.len() ==> is_decimal_digit(#[trigger] s[i])
}

/// A number in the pattern grammar: one or more decimal digits. Leading
/// zeros are allowed and carry no meaning.
pub open spec fn is_number(s: Seq<char>) -> bool {
    s.len() > 0 && all_decimal_digits(s)
}

/// The value of a digit sequence read as a base-ten numeral.
pub open spec fn number_value(s: Seq<char>) -> int
    decreases s.len(),
{
    if s.len() == 0 {
        0
    } else {
        number_value(s.drop_last()) * 10 + digit_value(s.last())
    }
}

pub proof fn lemma_number_value_nonneg(s: Seq<char>)
    ensures
        number_value(s) >= 0,
    decreases s.len(),
{
    if s.len() > 0 {
        lemma_number_value_nonneg(s.drop_last());
    }
}

/// A numeral's value is at least the value of any of its prefixes.
pub proof fn lemma_number_value_prefix_le(s: Seq<char>, i: int)
    requires
        0 <= i <= s.len(),
    ensures
        number_value(s.subrange(0, i)) <= number_value(s),
    decreases s.len() - i,
{
    if i == s.len() {
        assert(s.subrange(0, i) =~= s);
    } else {
        lemma_number_value_prefix_le(s, i + 1);
        let t = s.subrange(0, i + 1);
        assert(t.drop_last() =~= s.subrange(0, i));
        assert(t.last() == s[i]);
        lemma_number_value_nonneg(s.subrange(0, i));
    }
}

/// Reads `s` as a base-ten numeral: `Some` exactly when `s` is one or more
/// decimal digits and its value fits in `usize`.
pub fn parse_decimal(s: &str) -> (r: Option<usize>)
    ensures
        match r {
            Some(n) => is_number(s@) && number_value(s@) == n,
            None => !(is_number(s@) && number_value(s@) <= usize::MAX),
        },
{
    let n = s.unicode_len();
    if n == 0 {
        return None;
    }
    let mut i: usize = 0;
    while i < n
        invariant
            n == s@.len(),
            i <= n,
            forall|j: int| 0 <= j < i ==> is_decimal_digit(#[trigger] s@[j]),
        decreases n - i,
    {
        let c = s.get_char(i);
        let cv: u32 = c as u32;
        if cv < 48 || cv > 57 {
            assert(!is_decimal_digit(s@[i as int]));
            return None;
        }
        i += 1;
    }
    assert(all_decimal_digits(s@));
    let mut acc: usize = 0;
    let mut i: usize = 0;
    while i < n
        invariant
            n == s@.len(),
            i <= n,
            all_decimal_digits(s@),
            acc == number_value(s@.subrange(0, i as int)),
        decreases n - i,
    {
        let c = s.get_char(i);
        let cv: u32 = c as u32;
        assert(is_decimal_digit(s@[i as int]));
        let d: usize = (cv - 48) as usize;
        assert(d == digit_value(s@[i as int]));
        proof {
            assert(s@.subrange(0, i + 1).drop_last() =~= s@.subrange(0, i as int));
            assert(s@.subrange(0, i + 1).last() == s@[i as int]);
        }
        let stepped: Option<usize> = match acc.checked_mul(10) {
            Some(m) => m.checked_add(d),
            None => None,
        };
        match stepped {
            Some(v) => {
                acc = v;
                i += 1;
            },
            None => {
                proof {
                    assert(number_value(s@.subrange(0, i + 1)) > usize::MAX);
                    lemma_number_value_prefix_le(s@, i + 1);
                }
                return None;
            },
        }
    }
    proof {
        assert(s@.subrange(0, n as int) =~= s@);
    }
    Some(acc)
}

/// What resolving pattern `p` against a history of `len` items yields.
///
/// The grammar has two forms. A bare numeral `n` is an absolute index,
/// `0` being the oldest item. A leading `~` selects relative to the newest
/// item: `~` alone is the newest (`len - 1`), and `~k` is the `k`-th item
/// back from it (`len - 1 - k`). Everything else is rejected as invalid,
/// and out-of-range values are rejected with the attempted value and the
/// history's length.
pub open spec fn spec_resolve(p: Seq<char>, len: usize) -> Result<usize, HistoryError> {
    if p.len() > 0 && p[0] == '~' {
        let digits = p.subrange(1, p.len() as int);
        if p.len() == 1 {
            if len == 0 {
                Err(HistoryError::OffsetOutOfRange { offset: 0, len })
            } else {
                Ok((len - 1) as usize)
            }
        } else if is_number(digits) && number_value(digits) <= usize::MAX {
            let k = number_value(digits);
            if k >= len {
                Err(HistoryError::OffsetOutOfRange { offset: k as usize, len })
            } else {
                Ok((len - 1 - k) as usize)
            }
        } else {
            Err(HistoryError::InvalidPattern { reason: InvalidReason::RelativeOffset })
        }
    } else if is_number(p) && number_value(p) <= usize::MAX {
        let n = number_value(p);
        if n >= len {
            Err(HistoryError::IndexOutOfRange { index: n as usize, len })
        } else {
            Ok(n as usize)
        }
    } else {
        Err(HistoryError::InvalidPattern { reason: InvalidReason::AbsoluteIndex })
    }
}

/// Translates an offset pattern into a concrete index into a history of
/// `len` items. Pure: same pattern and length, same answer. On success the
/// index is in bounds.
pub fn resolve_offset_pattern(pattern: &str, len: usize) -> (r: Result<usize, HistoryError>)
    ensures
        r == spec_resolve(pattern@, len),
        r matches Ok(index) ==> index < len,
{
    let n = pattern.unicode_len();
    if n >= 1 && pattern.get_char(0) == '~' {
        if n == 1 {
            if len == 0 {
                Err(HistoryError::OffsetOutOfRange { offset: 0, len })
            } else {
                Ok(len - 1)
            }
        } else {
            let digits = pattern.substring_char(1, n);
            match parse_decimal(digits) {
                Some(k) => {
                    if k >= len {
                        Err(HistoryError::OffsetOutOfRange { offset: k, len })
                    } else {
                        Ok(len - 1 - k)
                    }
                },
                None => Err(HistoryError::InvalidPattern { reason: InvalidReason::RelativeOffset }),
            }
        }
    } else {
        match parse_decimal(pattern) {
            Some(index) => {
                if index >= len {
                    Err(HistoryError::IndexOutOfRange { index, len })
                } else {
                    Ok(index)
                }
            },
            None => Err(HistoryError::InvalidPattern { reason: InvalidReason::AbsoluteIndex }),
        }
    }
}

/// Translates an offset pattern into an index of an item of `history`.
pub fn parse_pattern(history: &History, pattern: &str) -> (r: Result<usize, HistoryError>)
    ensures
        r == spec_resolve(pattern@, history@.len() as usize),
        r matches Ok(index) ==> index < history@.len(),
{
    resolve_offset_pattern(pattern, history.len())
}

/// Law: against a history of `len >= 1` items, `~` followed by a numeral of
/// value `k < len` resolves to `len - 1 - k`, the `k`-th item back from the
/// newest.
pub proof fn lemma_relative_offset_resolves(digits: Seq<char>, len: usize, k: int)
    requires
        is_number(digits),
        number_value(digits) == k,
        0 <= k < len,
    ensures
        spec_resolve(seq!['~'] + digits, len) == Ok::<usize, HistoryError>((len - 1 - k) as usize),
{
    let p = seq!['~'] + digits;
    assert(p[0] == '~');
    assert(p.subrange(1, p.len() as int) =~= digits);
}

/// Law: against a history of `len >= 1` items, `~` and `~0` both resolve to
/// the newest item, `len - 1`.
pub proof fn lemma_tilde_is_newest(len: usize)
    requires
        len >= 1,
    ensures
        spec_resolve(seq!['~'], len) == Ok::<usize, HistoryError>((len - 1) as usize),
        spec_resolve(seq!['~', '0'], len) == Ok::<usize, HistoryError>((len - 1) as usize),
{
    let p = seq!['~', '0'];
    assert(p.subrange(1, 2) =~= seq!['0']);
    assert(number_value(Seq::<char>::empty()) == 0);
    assert(seq!['0'].drop_last() =~= Seq::<char>::empty());
    assert(number_value(seq!['0']) == 0);
}

/// Law: a bare numeral of value `n < len` resolves to the absolute index `n`.
pub proof fn lemma_absolute_resolves(digits: Seq<char>, len: usize, n: int)
    requires
        is_number(digits),
        number_value(digits) == n,
        0 <= n < len,
    ensures
        spec_resolve(digits, len) == Ok::<usize, HistoryError>(n as usize),
{
    assert(is_decimal_digit(digits[0]));
}

/// Law: a bare numeral of value `n >= len` (representable in `usize`) fails
/// with `IndexOutOfRange`, carrying `n` and the history's length.
pub proof fn lemma_absolute_out_of_range(digits: Seq<char>, len: usize, n: int)
    requires
        is_number(digits),
        number_value(digits) == n,
        len <= n <= usize::MAX,
    ensures
        spec_resolve(digits, len) == Err::<usize, HistoryError>(
            (HistoryError::IndexOutOfRange { index: n as usize, len }),
        ),
{
    assert(is_decimal_digit(digits[0]));
}

/// Law: `~` followed by a numeral of value `k >= len` (representable in
/// `usize`) fails with `OffsetOutOfRange`, carrying `k` and the history's
/// length.
pub proof fn lemma_relative_out_of_range(digits: Seq<char>, len: usize, k: int)
    requires
        is_number(digits),
        number_value(digits) == k,
        len <= k <= usize::MAX,
    ensures
        spec_resolve(seq!['~'] + digits, len) == Err::<usize, HistoryError>(
            (HistoryError::OffsetOutOfRange { offset: k as usize, len }),
        ),
{
    let p = seq!['~'] + digits;
    assert(p[0] == '~');
    assert(p.subrange(1, p.len() as int) =~= digits);
}

/// Law: against an empty history every pattern fails; no input resolves.
pub proof fn lemma_empty_history_always_fails(p: Seq<char>)
    ensures
        spec_resolve(p, 0) is Err,
{
    if p.len() > 0 && p[0] == '~' {
        let digits = p.subrange(1, p.len() as int);
        if p.len() > 1 && is_number(digits) {
            lemma_number_value_nonneg(digits);
        }
    } else if is_number(p) {
        lemma_number_value_nonneg(p);
    }
}

/// Law: a pattern that fits neither form of the grammar fails with
/// `InvalidPattern`, naming the form that was attempted.
pub proof fn lemma_invalid_pattern(p: Seq<char>, len: usize)
    requires
        (p.len() > 0 && p[0] == '~') ==> p.len() > 1 && !(is_number(
            p.subrange(1, p.len() as int),
        ) && number_value(p.subrange(1, p.len() as int)) <= usize::MAX),
        !(p.len() > 0 && p[0] == '~') ==> !(is_number(p) && number_value(p) <= usize::MAX),
    ensures
        (p.len() > 0 && p[0] == '~') ==> spec_resolve(p, len) == Err::<usize, HistoryError>(
            (HistoryError::InvalidPattern { reason: InvalidReason::RelativeOffset }),
        ),
        !(p.len() > 0 && p[0] == '~') ==> spec_resolve(p, len) == Err::<usize, HistoryError>(
            (HistoryError::InvalidPattern { reason: InvalidReason::AbsoluteIndex }),
        ),
{
}

} // verus!
