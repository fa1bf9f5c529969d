//! Unsigned decimal numbers written in text.
use vstd::prelude::*;

use crate::text::{chars_of, push_char};

verus! {

/// Whether `c` is an ASCII digit.
pub open spec fn is_digit(c: char) -> bool {
    '0' <= c && c <= '9'
}

/// Whether `ds` is a non-empty run of ASCII digits.
pub open spec fn is_decimal(ds: Seq<char>) -> bool {
    ds.len() > 0 && forall|k: int| 0 <= k < ds.len() ==> is_digit(#[trigger] ds[k])
}

/// The number that the digits `ds` write in base ten.
pub open spec fn decimal_value(ds: Seq<char>) -> nat
    decreases ds.len(),
{
    if ds.len() == 0 {
        0
    } else {
        decimal_value(ds.drop_last()) * 10 + (ds.last() as nat - '0' as nat) as nat
    }
}

/// The value `str::parse::<usize>` gives `s`: an optional `+` followed by a
/// non-empty run of ASCII digits whose value fits in a `usize`.
pub open spec fn usize_text_value(s: Seq<char>) -> Option<usize> {
    let ds = if s.len() > 0 && s[0] == '+' {
        s.drop_first()
    } else {
        s
    };
    if is_decimal(ds) && decimal_value(ds) <= usize::MAX {
        Some(decimal_value(ds) as usize)
    } else {
        None
    }
}

/// A longer run of digits is worth at least as much as any of its prefixes.
pub proof fn lemma_decimal_prefix_le(ds: Seq<char>, k: int)
    requires
        0 <= k <= ds.len(),
        forall|j: int| 0 <= j < ds.len() ==> is_digit(#[trigger] ds[j]),
    ensures
        decimal_value(ds.take(k)) <= decimal_value(ds),
    decreases ds.len(),
{
    if k == ds.len() {
        assert(ds.take(k) =~= ds);
    } else {
        let shorter = ds.drop_last();
        assert(shorter.take(k) =~= ds.take(k));
        assert forall|j: int| 0 <= j < shorter.len() implies is_digit(#[trigger] shorter[j]) by {
            assert(shorter[j] == ds[j]);
        }
        lemma_decimal_prefix_le(shorter, k);
    }
}

/// The value of the digits `v[from..to]`, or `None` when they are not a
/// non-empty run of ASCII digits or their value does not fit in a `usize`.
pub fn parse_decimal(v: &Vec<char>, from: usize, to: usize) -> (r: Option<usize>)
    requires
        from <= to <= v@.len(),
    ensures
        ({
            let ds = v@.subrange(from as int, to as int);
            r == if is_decimal(ds) && decimal_value(ds) <= usize::MAX {
                Some(decimal_value(ds) as usize)
            } else {
                None::<usize>
            }
        }),
{
    let ghost ds = v@.subrange(from as int, to as int);
    if from == to {
        return None;
    }
    let mut value: usize = 0;
    let mut i = from;
    while i < to
        invariant
            from <= i <= to <= v@.len(),
            ds == v@.subrange(from as int, to as int),
            forall|j: int| 0 <= j < i - from ==> is_digit(#[trigger] ds[j]),
            value == decimal_value(ds.take(i - from)),
        decreases to - i,
    {
        let c = v[i];
        assert(ds[i - from] == c);
        if !('0' <= c && c <= '9') {
            return None;
        }
        let digit = (c as u32 - '0' as u32) as usize;
        proof {
            assert(ds.take(i - from + 1).drop_last() =~= ds.take(i - from));
        }
        match value.checked_mul(10) {
            Some(tens) => match tens.checked_add(digit) {
                Some(next) => {
                    value = next;
                },
                None => {
                    proof {
                        lemma_overflow_means_too_large(ds, i - from + 1);
                    }
                    return None;
                },
            },
            None => {
                proof {
                    lemma_overflow_means_too_large(ds, i - from + 1);
                }
                return None;
            },
        }
        i = i + 1;
    }
    assert(ds.take(to - from) =~= ds);
    Some(value)
}

/// When a prefix of a run is already too large, the run is too large or is
/// not made of digits only.
proof fn lemma_overflow_means_too_large(ds: Seq<char>, k: int)
    requires
        0 < k <= ds.len(),
        forall|j: int| 0 <= j < k ==> is_digit(#[trigger] ds[j]),
        decimal_value(ds.take(k)) > usize::MAX,
    ensures
        !(is_decimal(ds) && decimal_value(ds) <= usize::MAX),
{
    if is_decimal(ds) {
        lemma_decimal_prefix_le(ds, k);
    }
}

/// `str::parse::<usize>` on `s`.
pub fn parse_usize_text(s: &str) -> (r: Option<usize>)
    ensures
        r == usize_text_value(s@),
{
    let v = chars_of(s);
    let from: usize = if v.len() > 0 && v[0] == '+' {
        1
    } else {
        0
    };
    proof {
        if from == 1 {
            assert(v@.subrange(1, v@.len() as int) =~= s@.drop_first());
        } else {
            assert(v@.subrange(0, v@.len() as int) =~= s@);
        }
    }
    parse_decimal(&v, from, v.len())
}

/// The ASCII digit for `d` (below ten).
pub open spec fn digit_char(d: nat) -> char {
    (d + 48) as char
}

/// `n` written in base ten, without leading zeros.
pub open spec fn decimal_text(n: nat) -> Seq<char>
    decreases n,
{
    if n < 10 {
        seq![digit_char(n)]
    } else {
        decimal_text(n / 10).push(digit_char(n % 10))
    }
}

/// The text of `n` is a run of digits worth `n`, which reads back as `n`.
pub proof fn lemma_decimal_text(n: nat)
    ensures
        is_decimal(decimal_text(n)),
        decimal_value(decimal_text(n)) == n,
        n <= usize::MAX ==> usize_text_value(decimal_text(n)) == Some(n as usize),
    decreases n,
{
    let t = decimal_text(n);
    let d = n % 10;
    assert(digit_char(d) as nat == d + 48);
    if n >= 10 {
        lemma_decimal_text(n / 10);
        let front = decimal_text(n / 10);
        assert(t.drop_last() =~= front);
        assert forall|k: int| 0 <= k < t.len() implies is_digit(#[trigger] t[k]) by {
            if k < front.len() {
                assert(t[k] == front[k]);
            }
        }
        assert(n == (n / 10) * 10 + n % 10) by (nonlinear_arith);
        assert(t.last() == digit_char(d));
        assert(decimal_value(t) == decimal_value(front) * 10 + d);
    } else {
        assert(t.drop_last() =~= Seq::<char>::empty());
        assert(decimal_value(t) == decimal_value(t.drop_last()) * 10 + d);
    }
    assert(is_digit(t[0]));
}

/// The digit character for `d`.
fn digit_char_of(d: usize) -> (c: char)
    requires
        d < 10,
    ensures
        c == digit_char(d as nat),
{
    (d as u8 + 48u8) as char
}

/// Appends `n` in base ten to `s`.
fn push_decimal_text(s: &mut String, n: usize)
    ensures
        final(s)@ == old(s)@ + decimal_text(n as nat),
    decreases n,
{
    let ghost start = s@;
    if n >= 10 {
        push_decimal_text(s, n / 10);
    }
    push_char(s, digit_char_of(n % 10));
    assert(s@ =~= start + decimal_text(n as nat));
}

/// `n` written in base ten.
pub fn usize_to_decimal_text(n: usize) -> (r: String)
    ensures
        r@ == decimal_text(n as nat),
{
    let mut s = String::new();
    push_decimal_text(&mut s, n);
    assert(s@ =~= decimal_text(n as nat));
    s
}

} // verus!
