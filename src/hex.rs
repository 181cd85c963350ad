use vstd::prelude::*;

verus! {

/// The value of one hexadecimal digit, either case.
pub open spec fn hex_digit(c: char) -> Option<nat> {
    if '0' <= c && c <= '9' {
        Some((c as u32 - '0' as u32) as nat)
    } else if 'a' <= c && c <= 'f' {
        Some((c as u32 - 'a' as u32 + 10) as nat)
    } else if 'A' <= c && c <= 'F' {
        Some((c as u32 - 'A' as u32 + 10) as nat)
    } else {
        None
    }
}

pub open spec fn all_hex_digits(s: Seq<char>) -> bool {
    forall|i: int| 0 <= i < s.len() ==> (#[trigger] hex_digit(s[i])).is_some()
}

/// The number that a run of hexadecimal digits denotes, most significant first.
pub open spec fn hex_value(s: Seq<char>) -> nat
    decreases s.len(),
{
    if s.len() == 0 {
        0
    } else {
        hex_value(s.drop_last()) * 16 + hex_digit(s.last()).unwrap_or(0)
    }
}

/// The digits of an id: the text without one leading `+`.
pub open spec fn hex_id_digits(s: Seq<char>) -> Seq<char> {
    if s.len() > 0 && s[0] == '+' {
        s.subrange(1, s.len() as int)
    } else {
        s
    }
}

/// A workspace id as the window manager writes it: base 16, an optional
/// leading `+`, at least one digit, and a value that fits a `usize`.
pub open spec fn hex_id(s: Seq<char>) -> Option<usize> {
    let d = hex_id_digits(s);
    if d.len() > 0 && all_hex_digits(d) && hex_value(d) <= usize::MAX {
        Some(hex_value(d) as usize)
    } else {
        None
    }
}

proof fn lemma_hex_value_prefix_grows(s: Seq<char>, k: int)
    requires
        0 <= k <= s.len(),
    ensures
        hex_value(s.subrange(0, k)) <= hex_value(s),
    decreases s.len() - k,
{
    if k < s.len() {
        lemma_hex_value_prefix_grows(s, k + 1);
        let p = s.subrange(0, k + 1);
        assert(p.drop_last() =~= s.subrange(0, k));
    } else {
        assert(s.subrange(0, k) =~= s);
    }
}

fn digit_of(c: char) -> (r: Option<u32>)
    ensures
        r matches Some(v) ==> hex_digit(c) == Some(v as nat),
        r is None ==> hex_digit(c) is None,
{
    if '0' <= c && c <= '9' {
        Some(c as u32 - '0' as u32)
    } else if 'a' <= c && c <= 'f' {
        Some(c as u32 - 'a' as u32 + 10)
    } else if 'A' <= c && c <= 'F' {
        Some(c as u32 - 'A' as u32 + 10)
    } else {
        None
    }
}

/// Reads a workspace id written in base 16.
pub fn parse_hex_id(s: &str) -> (r: Option<usize>)
    ensures
        r == hex_id(s@),
{
    let n = s.unicode_len();
    let mut start: usize = 0;
    if n > 0 && s.get_char(0) == '+' {
        start = 1;
    }
    let ghost d = hex_id_digits(s@);
    assert(d =~= s@.subrange(start as int, n as int));
    if start == n {
        return None;
    }
    let mut i: usize = start;
    while i < n
        invariant
            start <= i <= n,
            n == s@.len(),
            d == hex_id_digits(s@),
            d =~= s@.subrange(start as int, n as int),
            forall|j: int| 0 <= j < i - start ==> (#[trigger] hex_digit(d[j])).is_some(),
        decreases n - i,
    {
        if digit_of(s.get_char(i)).is_none() {
            assert(hex_digit(d[i - start]) is None);
            return None;
        }
        i = i + 1;
    }
    assert(all_hex_digits(d));
    let mut acc: usize = 0;
    let mut i: usize = start;
    while i < n
        invariant
            start <= i <= n,
            n == s@.len(),
            d == hex_id_digits(s@),
            d =~= s@.subrange(start as int, n as int),
            all_hex_digits(d),
            acc as nat == hex_value(d.subrange(0, i - start)),
        decreases n - i,
    {
        let c = s.get_char(i);
        let v = digit_of(c).unwrap();
        assert(hex_digit(d[i - start]).is_some());
        let ghost p = d.subrange(0, i - start + 1);
        assert(p.drop_last() =~= d.subrange(0, i - start));
        assert(p.last() == c);
        if acc > (usize::MAX - v as usize) / 16 {
            assert(hex_value(p) > usize::MAX) by (nonlinear_arith)
                requires
                    acc > (usize::MAX - v as usize) / 16,
                    hex_value(p) == acc * 16 + v,
                    v < 16,
            ;
            proof {
                lemma_hex_value_prefix_grows(d, i - start + 1);
            }
            assert(hex_value(d) > usize::MAX);

            return None;
        }
        assert(acc * 16 + v <= usize::MAX) by (nonlinear_arith)
            requires
                acc <= (usize::MAX - v as usize) / 16,
                v < 16,
        ;
        acc = acc * 16 + v as usize;
        i = i + 1;
    }
    assert(d.subrange(0, n - start) =~= d);
    Some(acc)
}

} // verus!
