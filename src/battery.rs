use vstd::prelude::*;

use crate::events::same_text;

verus! {

/// What the kernel reports of one battery.
#[derive(Clone, Debug, PartialEq, Eq)]
pub struct BatteryInfo {
    pub capacity: i32,
    pub status: String,
}

/// The contents of the `type` file of a power supply that is a battery.
pub open spec fn is_battery_type(t: Seq<char>) -> bool {
    t == "Battery\n"@
}

/// A text without the newlines at its end.
pub open spec fn trim_newlines(s: Seq<char>) -> Seq<char>
    decreases s.len(),
{
    if s.len() > 0 && s.last() == '\n' {
        trim_newlines(s.drop_last())
    } else {
        s
    }
}

pub open spec fn is_decimal_digit(c: char) -> bool {
    '0' <= c && c <= '9'
}

/// The number that a run of decimal digits denotes.
pub open spec fn decimal_value(s: Seq<char>) -> nat
    decreases s.len(),
{
    if s.len() == 0 {
        0
    } else {
        decimal_value(s.drop_last()) * 10 + (s.last() as u32 - '0' as u32) as nat
    }
}

/// The text starts with a minus sign.
pub open spec fn is_negative_text(s: Seq<char>) -> bool {
    s.len() > 0 && s[0] == '-'
}

/// The digits of a decimal integer: the text without its sign.
pub open spec fn decimal_digits(s: Seq<char>) -> Seq<char> {
    if s.len() > 0 && (s[0] == '+' || s[0] == '-') {
        s.subrange(1, s.len() as int)
    } else {
        s
    }
}

/// A decimal integer: an optional `+` or `-`, at least one digit, and a
/// value in the range of an `i32`.
pub open spec fn decimal_i32(s: Seq<char>) -> Option<i32> {
    let negative = is_negative_text(s);
    let d = decimal_digits(s);
    if d.len() == 0 || !(forall|i: int| 0 <= i < d.len() ==> is_decimal_digit(#[trigger] d[i])) {
        None
    } else if negative {
        if decimal_value(d) <= 0x8000_0000 {
            Some((0 - decimal_value(d)) as i32)
        } else {
            None
        }
    } else if decimal_value(d) <= 0x7fff_ffff {
        Some(decimal_value(d) as i32)
    } else {
        None
    }
}

proof fn lemma_decimal_prefix_grows(s: Seq<char>, k: int)
    requires
        0 <= k <= s.len(),
    ensures
        decimal_value(s.subrange(0, k)) <= decimal_value(s),
    decreases s.len() - k,
{
    if k < s.len() {
        lemma_decimal_prefix_grows(s, k + 1);
        assert(s.subrange(0, k + 1).drop_last() =~= s.subrange(0, k));
    } else {
        assert(s.subrange(0, k) =~= s);
    }
}

/// Whether the `type` file of a power supply says it is a battery.
pub fn is_battery(type_text: &str) -> (r: bool)
    ensures
        r == is_battery_type(type_text@),
{
    same_text(type_text, "Battery\n")
}

/// The text without the newlines at its end.
pub fn trim_end_newlines(s: &str) -> (r: &str)
    ensures
        r@ == trim_newlines(s@),
{
    let mut n = s.unicode_len();
    assert(s@.subrange(0, n as int) =~= s@);
    while n > 0 && s.get_char(n - 1) == '\n'
        invariant
            n <= s@.len(),
            trim_newlines(s@.subrange(0, n as int)) == trim_newlines(s@),
        decreases n,
    {
        assert(s@.subrange(0, n as int).drop_last() =~= s@.subrange(0, n - 1));
        n = n - 1;
    }
    let r = s.substring_char(0, n);
    assert(r@ =~= s@.subrange(0, n as int));
    r
}

/// Reads a decimal `i32`.
pub fn parse_decimal_i32(s: &str) -> (r: Option<i32>)
    ensures
        r == decimal_i32(s@),
{
    let n = s.unicode_len();
    let mut start: usize = 0;
    let mut negative = false;
    if n > 0 {
        let c = s.get_char(0);
        if c == '+' || c == '-' {
            start = 1;
            negative = c == '-';
        }
    }
    let ghost d = decimal_digits(s@);
    assert(d =~= s@.subrange(start as int, n as int));
    if start == n {
        return None;
    }
    let limit: u64 = if negative {
        0x8000_0000
    } else {
        0x7fff_ffff
    };
    let mut acc: u64 = 0;
    let mut i: usize = start;
    while i < n
        invariant
            start <= i <= n,
            n == s@.len(),
            d == s@.subrange(start as int, n as int),
            d == decimal_digits(s@),
            negative == is_negative_text(s@),
            limit == if negative {
                0x8000_0000u64
            } else {
                0x7fff_ffffu64
            },
            forall|j: int| 0 <= j < i - start ==> is_decimal_digit(#[trigger] d[j]),
            acc as nat == decimal_value(d.subrange(0, i - start)),
            acc <= limit,
        decreases n - i,
    {
        let c = s.get_char(i);
        if !('0' <= c && c <= '9') {
            assert(!is_decimal_digit(d[i - start]));
            return None;
        }
        let v = c as u32 - '0' as u32;
        let ghost p = d.subrange(0, i - start + 1);
        assert(p.drop_last() =~= d.subrange(0, i - start));
        assert(p.last() == c);
        let next = acc * 10 + v as u64;
        if next > limit {
            proof {
                lemma_decimal_prefix_grows(d, i - start + 1);
            }
            // a later non-digit rejects the text just as well
            return None;
        }
        acc = next;
        i = i + 1;
    }
    assert(d.subrange(0, n - start) =~= d);
    if negative {
        Some((0 - acc as i64) as i32)
    } else {
        Some(acc as i32)
    }
}

/// A battery's report from the contents of its `capacity` and `status`
/// files; `None` when the capacity is not a number.
pub fn battery_info(capacity_text: &str, status_text: &str) -> (r: Option<BatteryInfo>)
    ensures
        match decimal_i32(trim_newlines(capacity_text@)) {
            Some(c) => r matches Some(b) && b.capacity == c && b.status@ == trim_newlines(
                status_text@,
            ),
            None => r is None,
        },
{
    match parse_decimal_i32(trim_end_newlines(capacity_text)) {
        Some(capacity) => Some(
            BatteryInfo {
                capacity,
                status: String::from_str(trim_end_newlines(status_text)),
            },
        ),
        None => None,
    }
}

} // verus!
