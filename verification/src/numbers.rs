//! Integer parsing as `str::parse::<i64>` and `str::parse::<u64>` do it.
use crate::text::is_ascii_digit;
use vstd::prelude::*;

verus! {

/// Every character is an ASCII digit and there is at least one.
pub open spec fn is_digit_run(s: Seq<char>) -> bool {
    s.len() > 0 && forall|i: int| 0 <= i < s.len() ==> is_ascii_digit(#[trigger] s[i])
}

/// The number a run of decimal digits spells.
pub open spec fn digits_value(s: Seq<char>) -> nat
    decreases s.len(),
{
    if s.len() == 0 {
        0
    } else {
        digits_value(s.drop_last()) * 10 + (s.last() as nat - '0' as nat) as nat
    }
}

/// `i64::from_str`: an optional `+` or `-`, then decimal digits, in range.
pub open spec fn parse_i64(s: Seq<char>) -> Option<i64> {
    if s.len() > 0 && s[0] == '-' && is_digit_run(s.drop_first()) {
        if digits_value(s.drop_first()) <= 0x8000_0000_0000_0000 {
            Some((0 - digits_value(s.drop_first())) as i64)
        } else {
            None
        }
    } else if s.len() > 0 && s[0] == '+' && is_digit_run(s.drop_first()) {
        if digits_value(s.drop_first()) <= i64::MAX {
            Some(digits_value(s.drop_first()) as i64)
        } else {
            None
        }
    } else if is_digit_run(s) {
        if digits_value(s) <= i64::MAX {
            Some(digits_value(s) as i64)
        } else {
            None
        }
    } else {
        None
    }
}

proof fn lemma_digits_value_monotone(s: Seq<char>, k: int)
    requires
        0 <= k <= s.len(),
        forall|i: int| 0 <= i < s.len() ==> is_ascii_digit(#[trigger] s[i]),
    ensures
        digits_value(s.take(k)) <= digits_value(s),
    decreases s.len() - k,
{
    if k < s.len() {
        lemma_digits_value_monotone(s, k + 1);
        assert(s.take(k + 1).drop_last() =~= s.take(k));
        assert(digits_value(s.take(k + 1)) == digits_value(s.take(k)) * 10 + (s.take(k + 1).last()
            as nat - '0' as nat) as nat);
    } else {
        assert(s.take(k) =~= s);
    }
}

/// The value of the digit run `s[from..to]`, or `None` when it exceeds `limit`.
fn digits_up_to(s: &Vec<char>, from: usize, to: usize, limit: u64) -> (r: Option<u64>)
    requires
        from <= to <= s.len(),
        limit >= 9,
        forall|i: int| from <= i < to ==> is_ascii_digit(#[trigger] s@[i]),
    ensures
        r is None <==> digits_value(s@.subrange(from as int, to as int)) > limit,
        r matches Some(v) ==> v == digits_value(s@.subrange(from as int, to as int)),
{
    let mut acc: u64 = 0;
    let mut i = from;
    while i < to
        invariant
            from <= i <= to <= s.len(),
            forall|j: int| from <= j < to ==> is_ascii_digit(#[trigger] s@[j]),
            acc == digits_value(s@.subrange(from as int, i as int)),
            acc <= limit,
            limit >= 9,
        decreases to - i,
    {
        let d = (s[i] as u32 - '0' as u32) as u64;
        proof {
            assert(s@.subrange(from as int, (i + 1) as int).drop_last() =~= s@.subrange(
                from as int,
                i as int,
            ));
            assert(is_ascii_digit(s@[i as int]));
        }
        if acc > (limit - d) / 10 {
            proof {
                let whole = s@.subrange(from as int, to as int);
                let head = s@.subrange(from as int, (i + 1) as int);
                assert(head =~= whole.take((i + 1 - from) as int));
                assert forall|j: int| 0 <= j < whole.len() implies is_ascii_digit(
                    #[trigger] whole[j],
                ) by {
                    assert(whole[j] == s@[from + j]);
                }
                lemma_digits_value_monotone(whole, (i + 1 - from) as int);
                assert(digits_value(head) == acc * 10 + d);
                assert(acc * 10 + d > limit) by (nonlinear_arith)
                    requires
                        acc > (limit - d) / 10,
                        d <= 9,
                        d <= limit,
                ;
            }
            return None;
        }
        assert(acc * 10 + d <= limit) by (nonlinear_arith)
            requires
                acc <= (limit - d) / 10,
                d <= 9,
                d <= limit,
        ;
        acc = acc * 10 + d;
        i = i + 1;
    }
    Some(acc)
}

fn all_digits(s: &Vec<char>, from: usize) -> (r: bool)
    requires
        from <= s.len(),
    ensures
        r == is_digit_run(s@.skip(from as int)),
{
    if from == s.len() {
        return false;
    }
    let mut i = from;
    while i < s.len()
        invariant
            from <= i <= s.len(),
            forall|j: int| from <= j < i ==> is_ascii_digit(#[trigger] s@[j]),
        decreases s.len() - i,
    {
        if !crate::text::char_is_ascii_digit(s[i]) {
            proof {
                assert(s@.skip(from as int)[i - from] == s@[i as int]);
            }
            return false;
        }
        i = i + 1;
    }
    proof {
        assert forall|j: int| 0 <= j < s@.skip(from as int).len() implies is_ascii_digit(
            #[trigger] s@.skip(from as int)[j],
        ) by {
            assert(s@.skip(from as int)[j] == s@[from + j]);
        }
    }
    true
}

/// Parses `s` as a signed 64-bit integer the way `str::parse::<i64>` does.
pub fn parse_i64_chars(s: &Vec<char>) -> (r: Option<i64>)
    ensures
        r == parse_i64(s@),
{
    if s.len() > 0 && (s[0] == '-' || s[0] == '+') {
        if !all_digits(s, 1) {
            proof {
                assert(s@.skip(1) =~= s@.drop_first());
                assert(!is_digit_run(s@)) by {
                    assert(!is_ascii_digit(s@[0]));
                }
            }
            return None;
        }
        proof {
            assert(s@.skip(1) =~= s@.drop_first());
            assert(s@.subrange(1, s@.len() as int) =~= s@.drop_first());
            assert forall|i: int| 1 <= i < s.len() implies is_ascii_digit(#[trigger] s@[i]) by {
                assert(s@[i] == s@.skip(1)[i - 1]);
            }
        }
        let neg = s[0] == '-';
        let limit: u64 = if neg {
            0x8000_0000_0000_0000
        } else {
            0x7fff_ffff_ffff_ffff
        };
        match digits_up_to(s, 1, s.len(), limit) {
            None => None,
            Some(v) => {
                if neg {
                    if v == 0x8000_0000_0000_0000 {
                        Some(i64::MIN)
                    } else {
                        Some(0 - (v as i64))
                    }
                } else {
                    Some(v as i64)
                }
            },
        }
    } else {
        if !all_digits(s, 0) {
            proof {
                assert(s@.skip(0) =~= s@);
            }
            return None;
        }
        proof {
            assert(s@.skip(0) =~= s@);
            assert(s@.subrange(0, s@.len() as int) =~= s@);
            assert forall|i: int| 0 <= i < s.len() implies is_ascii_digit(#[trigger] s@[i]) by {
                assert(s@[i] == s@.skip(0)[i]);
            }
        }
        match digits_up_to(s, 0, s.len(), 0x7fff_ffff_ffff_ffff) {
            None => None,
            Some(v) => Some(v as i64),
        }
    }
}

/// `u64::from_str`: an optional `+`, then decimal digits, in range.
pub open spec fn parse_u64(s: Seq<char>) -> Option<u64> {
    if s.len() > 0 && s[0] == '+' && is_digit_run(s.drop_first()) {
        if digits_value(s.drop_first()) <= u64::MAX {
            Some(digits_value(s.drop_first()) as u64)
        } else {
            None
        }
    } else if is_digit_run(s) {
        if digits_value(s) <= u64::MAX {
            Some(digits_value(s) as u64)
        } else {
            None
        }
    } else {
        None
    }
}

/// Parses `s` as an unsigned 64-bit integer the way `str::parse::<u64>` does.
pub fn parse_u64_chars(s: &Vec<char>) -> (r: Option<u64>)
    ensures
        r == parse_u64(s@),
{
    let from: usize = if s.len() > 0 && s[0] == '+' {
        1
    } else {
        0
    };
    if !all_digits(s, from) {
        proof {
            if from == 1 {
                assert(s@.skip(1) =~= s@.drop_first());
                assert(!is_ascii_digit(s@[0]));
            } else {
                assert(s@.skip(0) =~= s@);
            }
        }
        return None;
    }
    proof {
        assert forall|i: int| from <= i < s.len() implies is_ascii_digit(#[trigger] s@[i]) by {
            assert(s@[i] == s@.skip(from as int)[i - from]);
        }
        if from == 1 {
            assert(s@.skip(1) =~= s@.drop_first());
            assert(s@.subrange(1, s@.len() as int) =~= s@.drop_first());
        } else {
            assert(s@.skip(0) =~= s@);
            assert(s@.subrange(0, s@.len() as int) =~= s@);
        }
    }
    digits_up_to(s, from, s.len(), u64::MAX)
}

} // verus!
