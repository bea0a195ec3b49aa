//! Decimal integer parsing and formatting as `str::parse::<u64>`,
//! `str::parse::<i64>` and `u128::to_string` perform them.
use vstd::prelude::*;
use crate::text::chars_of;

verus! {

pub open spec fn is_digit(c: char) -> bool {
    '0' <= c && c <= '9'
}

pub open spec fn digit_value(c: char) -> nat {
    ((c as u32) - ('0' as u32)) as nat
}

pub open spec fn all_digits(s: Seq<char>) -> bool {
    forall|i: int| 0 <= i < s.len() ==> is_digit(#[trigger] s[i])
}

/// Value of a string of decimal digits, most significant first.
pub open spec fn digits_value(s: Seq<char>) -> nat
    decreases s.len(),
{
    if s.len() == 0 {
        0
    } else {
        digits_value(s.drop_last()) * 10 + digit_value(s.last())
    }
}

/// The digits after an optional leading `+`.
pub open spec fn unsigned_body(s: Seq<char>) -> Seq<char> {
    if s.len() > 0 && s[0] == '+' {
        s.drop_first()
    } else {
        s
    }
}

/// What `str::parse::<u64>` returns: an optional `+`, then one or more
/// decimal digits whose value fits in a `u64`.
pub open spec fn parse_u64_spec(s: Seq<char>) -> Option<u64> {
    let b = unsigned_body(s);
    if b.len() > 0 && all_digits(b) && digits_value(b) <= u64::MAX {
        Some(digits_value(b) as u64)
    } else {
        None
    }
}

pub open spec fn is_negative_literal(s: Seq<char>) -> bool {
    s.len() > 0 && s[0] == '-'
}

pub open spec fn signed_body(s: Seq<char>) -> Seq<char> {
    if s.len() > 0 && (s[0] == '+' || s[0] == '-') {
        s.drop_first()
    } else {
        s
    }
}

/// What `str::parse::<i64>` returns: an optional sign, then one or more
/// decimal digits whose signed value fits in an `i64`.
pub open spec fn parse_i64_spec(s: Seq<char>) -> Option<i64> {
    let b = signed_body(s);
    let v = digits_value(b) as int;
    let signed = if is_negative_literal(s) {
        -v
    } else {
        v
    };
    if b.len() > 0 && all_digits(b) && i64::MIN <= signed <= i64::MAX {
        Some(signed as i64)
    } else {
        None
    }
}

pub proof fn lemma_digits_value_prefix_le(s: Seq<char>, k: int)
    requires
        0 <= k <= s.len(),
        all_digits(s),
    ensures
        digits_value(s.take(k)) <= digits_value(s),
    decreases s.len() - k,
{
    if k < s.len() {
        lemma_digits_value_prefix_le(s, k + 1);
        assert(s.take(k + 1).drop_last() == s.take(k));
    } else {
        assert(s.take(k) == s);
    }
}

/// Value of the digits of `s[from..]`, or `None` as soon as it exceeds
/// `limit` or a non-digit appears.
fn digits_up_to(s: &Vec<char>, from: usize, limit: u128) -> (r: Option<u128>)
    requires
        from <= s@.len(),
        limit <= u64::MAX as u128 + 1,
    ensures
        ({
            let b = s@.skip(from as int);
            match r {
                Some(v) => all_digits(b) && v == digits_value(b) && v <= limit,
                None => !(all_digits(b) && digits_value(b) <= limit),
            }
        }),
{
    let ghost b = s@.skip(from as int);
    let mut acc: u128 = 0;
    let mut i: usize = from;
    assert(b.take(0) == Seq::<char>::empty());
    while i < s.len()
        invariant
            from <= i <= s@.len(),
            b == s@.skip(from as int),
            limit <= u64::MAX as u128 + 1,
            all_digits(b.take(i - from)),
            acc == digits_value(b.take(i - from)),
            acc <= limit,
        decreases s@.len() - i,
    {
        let c = s[i];
        assert(b[i - from] == c);
        if !('0' <= c && c <= '9') {
            return None;
        }
        let d: u128 = ((c as u32) - ('0' as u32)) as u128;
        let next = acc * 10 + d;
        assert(b.take(i - from + 1).drop_last() == b.take(i - from));
        assert(b.take(i - from + 1).last() == c);
        if next > limit {
            proof {
                assert(digits_value(b.take(i - from + 1)) == next);
                if all_digits(b) {
                    lemma_digits_value_prefix_le(b, i - from + 1);
                }
            }
            return None;
        }
        acc = next;
        i = i + 1;
    }
    assert(b.take(i - from) == b);
    Some(acc)
}

/// `str::parse::<u64>`.
pub fn parse_u64(raw: &str) -> (r: Option<u64>)
    ensures
        r == parse_u64_spec(raw@),
{
    let s = chars_of(raw);
    let from: usize = if s.len() > 0 && s[0] == '+' {
        1
    } else {
        0
    };
    assert(unsigned_body(s@) == s@.skip(from as int));
    if from >= s.len() {
        return None;
    }
    match digits_up_to(&s, from, u64::MAX as u128) {
        Some(v) => Some(v as u64),
        None => None,
    }
}

/// `str::parse::<i64>`.
pub fn parse_i64(raw: &str) -> (r: Option<i64>)
    ensures
        r == parse_i64_spec(raw@),
{
    let s = chars_of(raw);
    let negative = s.len() > 0 && s[0] == '-';
    let from: usize = if s.len() > 0 && (s[0] == '+' || s[0] == '-') {
        1
    } else {
        0
    };
    assert(signed_body(s@) == s@.skip(from as int));
    if from >= s.len() {
        return None;
    }
    let limit: u128 = if negative {
        9223372036854775808
    } else {
        9223372036854775807
    };
    match digits_up_to(&s, from, limit) {
        Some(v) => {
            if negative {
                if v == 9223372036854775808 {
                    Some(i64::MIN)
                } else {
                    Some(-(v as i64))
                }
            } else {
                Some(v as i64)
            }
        },
        None => None,
    }
}

/// Decimal digits of `n`, most significant first, as `to_string` writes them.
pub open spec fn decimal_digits(n: nat) -> Seq<char>
    decreases n,
{
    if n < 10 {
        seq![(n + 48) as char]
    } else {
        decimal_digits(n / 10).push(((n % 10) + 48) as char)
    }
}

/// `u128::to_string`.
pub fn format_u128(n: u128) -> (r: Vec<char>)
    ensures
        r@ == decimal_digits(n as nat),
    decreases n,
{
    if n < 10 {
        let c = ((n as u8) + 48) as char;
        let mut r: Vec<char> = Vec::new();
        r.push(c);
        assert(r@ =~= seq![(n + 48) as char]);
        r
    } else {
        let mut r = format_u128(n / 10);
        let c = (((n % 10) as u8) + 48) as char;
        r.push(c);
        r
    }
}

} // verus!
