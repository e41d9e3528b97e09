//! Rendering numbers as text, and reading them back.

use vstd::prelude::*;
use vstd::string::{StrSliceExecFns, StringExecFns};

verus! {

broadcast use vstd::string::to_string_from_display_ensures_for_str;

/// The decimal digit character of `d < 10`.
pub open spec fn digit_char(d: nat) -> char {
    ('0' as nat + d) as char
}

/// The decimal representation of `n`, without leading zeros.
pub open spec fn decimal(n: nat) -> Seq<char>
    decreases n,
{
    if n < 10 {
        seq![digit_char(n)]
    } else {
        decimal(n / 10).push(digit_char(n % 10))
    }
}

/// The one-character string of a decimal digit.
fn digit_str(d: usize) -> (s: &'static str)
    requires
        d < 10,
    ensures
        s@ == seq![digit_char(d as nat)],
{
    proof {
        reveal_strlit("0");
        reveal_strlit("1");
        reveal_strlit("2");
        reveal_strlit("3");
        reveal_strlit("4");
        reveal_strlit("5");
        reveal_strlit("6");
        reveal_strlit("7");
        reveal_strlit("8");
        reveal_strlit("9");
    }
    match d {
        0 => "0",
        1 => "1",
        2 => "2",
        3 => "3",
        4 => "4",
        5 => "5",
        6 => "6",
        7 => "7",
        8 => "8",
        _ => "9",
    }
}

/// Render `n` in decimal.
pub fn decimal_string(n: usize) -> (s: String)
    ensures
        s@ == decimal(n as nat),
    decreases n,
{
    if n < 10 {
        digit_str(n).to_string()
    } else {
        let mut s = decimal_string(n / 10);
        s.append(digit_str(n % 10));
        s
    }
}

/// Whether `c` is a decimal digit.
pub open spec fn is_digit(c: char) -> bool {
    '0' as u32 <= c as u32 <= '9' as u32
}

/// The number written in decimal by the digits `t`.
pub open spec fn digits_value(t: Seq<char>) -> nat
    decreases t.len(),
{
    if t.len() == 0 {
        0
    } else {
        digits_value(t.drop_last()) * 10 + (t.last() as u32 - '0' as u32) as nat
    }
}

/// `t` without a leading `+`.
pub open spec fn unsigned_part(t: Seq<char>) -> Seq<char> {
    if t.len() > 0 && t[0] == '+' {
        t.subrange(1, t.len() as int)
    } else {
        t
    }
}

/// `t` read as an unsigned 64-bit number: an optional `+`, then at least
/// one decimal digit and nothing else, of a value that fits.
pub open spec fn parsed_u64(t: Seq<char>) -> Option<u64> {
    let d = unsigned_part(t);
    if d.len() > 0 && (forall|i: int| 0 <= i < d.len() ==> #[trigger] is_digit(d[i]))
        && digits_value(d) <= u64::MAX {
        Some(digits_value(d) as u64)
    } else {
        None
    }
}

/// The value of the digits `s[from..to]`, if they are all digits and the
/// value fits in 64 bits.
fn digits(s: &str, from: usize, to: usize) -> (v: Option<u64>)
    requires
        from <= to <= s@.len(),
    ensures
        v == (if (forall|i: int| from <= i < to ==> #[trigger] is_digit(s@[i]))
            && digits_value(s@.subrange(from as int, to as int)) <= u64::MAX {
            Some(digits_value(s@.subrange(from as int, to as int)) as u64)
        } else {
            None::<u64>
        }),
{
    let mut value: u64 = 0;
    let mut k: usize = from;
    while k < to
        invariant
            from <= k <= to <= s@.len(),
            forall|i: int| from <= i < k ==> #[trigger] is_digit(s@[i]),
            value == digits_value(s@.subrange(from as int, k as int)),
        decreases to - k,
    {
        let c = s.get_char(k);
        let u = c as u32;
        let ghost prefix = s@.subrange(from as int, k as int);
        let ghost next = s@.subrange(from as int, k + 1);
        assert(next.drop_last() =~= prefix);
        if u < 0x30 || u > 0x39 {
            assert(!is_digit(s@[k as int]));
            return None;
        }
        let d = (u - 0x30) as u64;
        if value > (u64::MAX - d) / 10 {
            proof {
                assert(value * 10 + d > u64::MAX) by (nonlinear_arith)
                    requires
                        value > (u64::MAX - d) / 10,
                        d <= 9,
                ;
                let whole = s@.subrange(from as int, to as int);
                if forall|i: int| from <= i < to ==> #[trigger] is_digit(s@[i]) {
                    assert(whole.subrange(0, next.len() as int) =~= next);
                    assert forall|i: int| 0 <= i < whole.len() implies #[trigger] is_digit(
                        whole[i],
                    ) by {
                        assert(whole[i] == s@[from + i]);
                    }
                    lemma_digits_prefix(whole, next);
                }
            }
            return None;
        }
        proof {
            assert(value * 10 + d <= u64::MAX) by (nonlinear_arith)
                requires
                    value <= (u64::MAX - d) / 10,
                    d <= 9,
            ;
        }
        value = value * 10 + d;
        k += 1;
    }
    Some(value)
}

/// A number never shrinks when digits are added behind it.
proof fn lemma_digits_prefix(t: Seq<char>, p: Seq<char>)
    requires
        t.len() >= p.len(),
        t.subrange(0, p.len() as int) =~= p,
        forall|i: int| 0 <= i < t.len() ==> #[trigger] is_digit(t[i]),
    ensures
        digits_value(t) >= digits_value(p),
    decreases t.len(),
{
    if t.len() > p.len() {
        assert(t.drop_last().subrange(0, p.len() as int) =~= p);
        lemma_digits_prefix(t.drop_last(), p);
    } else {
        assert(t =~= p);
    }
}

/// `s[from..to]` read as an unsigned 64-bit number: an optional `+`, then
/// at least one decimal digit and nothing else, of a value that fits.
pub(crate) fn parse_u64_in(s: &str, from: usize, to: usize) -> (r: Option<u64>)
    requires
        from <= to <= s@.len(),
    ensures
        r == parsed_u64(s@.subrange(from as int, to as int)),
{
    let ghost f = s@.subrange(from as int, to as int);
    if from == to {
        return None;
    }
    let first = s.get_char(from);
    let start = if first == '+' {
        from + 1
    } else {
        from
    };
    let ghost g = s@.subrange(start as int, to as int);
    assert(unsigned_part(f) =~= g) by {
        assert(f[0] == first);
    }
    if start >= to {
        return None;
    }
    let v = digits(s, start, to);
    assert((forall|i: int| 0 <= i < g.len() ==> #[trigger] is_digit(g[i])) == (forall|i: int|
        start <= i < to ==> #[trigger] is_digit(s@[i]))) by {
        if forall|i: int| 0 <= i < g.len() ==> #[trigger] is_digit(g[i]) {
            assert forall|i: int| start <= i < to implies #[trigger] is_digit(s@[i]) by {
                assert(g[i - start] == s@[i]);
            }
        }
    }
    v
}

/// `s` read as an unsigned 64-bit number, as `str::parse` reads it.
pub fn parse_u64(s: &str) -> (r: Option<u64>)
    ensures
        r == parsed_u64(s@),
{
    let n = s.unicode_len();
    assert(s@.subrange(0, n as int) =~= s@);
    parse_u64_in(s, 0, n)
}

/// A digit character is the digit's code past that of `0`.
proof fn lemma_digit_char(d: nat)
    requires
        d < 10,
    ensures
        digit_char(d) as u32 == '0' as u32 + d,
{
    assert(digit_char(d) as u32 == '0' as u32 + d);
}

/// The decimal rendering of a number is a non-empty run of digits whose
/// value is the number.
proof fn lemma_decimal_digits(n: nat)
    ensures
        decimal(n).len() > 0,
        forall|i: int| 0 <= i < decimal(n).len() ==> #[trigger] is_digit(decimal(n)[i]),
        digits_value(decimal(n)) == n,
    decreases n,
{
    lemma_digit_char(n % 10);
    assert(decimal(n).last() == digit_char(n % 10));
    if n < 10 {
        assert(decimal(n).drop_last() =~= Seq::<char>::empty());
        assert(digits_value(Seq::<char>::empty()) == 0);
    } else {
        lemma_decimal_digits(n / 10);
        let prev = decimal(n / 10);
        assert(decimal(n).drop_last() =~= prev);
        assert(n == (n / 10) * 10 + n % 10);
        assert forall|i: int| 0 <= i < decimal(n).len() implies #[trigger] is_digit(decimal(n)[i]) by {
            if i < prev.len() {
                assert(decimal(n)[i] == prev[i]);
            }
        }
    }
}

/// Reading back a number rendered in decimal gives the number.
pub proof fn lemma_parse_reads_back_decimal(n: u64)
    ensures
        parsed_u64(decimal(n as nat)) == Some(n),
{
    lemma_decimal_digits(n as nat);
    let d = decimal(n as nat);
    assert(is_digit(d[0]));
    assert(unsigned_part(d) == d);
}

} // verus!
