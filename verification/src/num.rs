//! Unsigned integers read from and written as text.
//!
//! `parse_uint` follows `from_str_radix` for unsigned integer types: an
//! optional `'+'` sign that must be followed by at least one digit, then
//! digits of the radix (either case for letters), and a value that fits the
//! target type.
use vstd::prelude::*;

verus! {

broadcast use vstd::seq_lib::group_seq_properties;

/// Value of a digit character in `radix`, if it is one (`char::to_digit`).
pub open spec fn digit_value(c: char, radix: nat) -> Option<nat> {
    let u = c as u32;
    let v: int = if 48 <= u <= 57 {
        u - 48
    } else if 97 <= u <= 122 {
        u - 97 + 10
    } else if 65 <= u <= 90 {
        u - 65 + 10
    } else {
        radix as int
    };
    if v < radix {
        Some(v as nat)
    } else {
        None
    }
}

/// Value of a sequence of digits (`Some(0)` for the empty sequence).
pub open spec fn digits_value(s: Seq<char>, radix: nat) -> Option<nat>
    decreases s.len(),
{
    if s.len() == 0 {
        Some(0)
    } else {
        match (digits_value(s.drop_last(), radix), digit_value(s.last(), radix)) {
            (Some(h), Some(d)) => Some(h * radix + d),
            _ => None,
        }
    }
}

/// The digits of `s` after an optional leading `'+'`.
pub open spec fn unsigned_digits(s: Seq<char>) -> Seq<char> {
    if s.len() > 1 && s[0] == '+' {
        s.drop_first()
    } else {
        s
    }
}

/// `from_str_radix` for an unsigned type whose largest value is `max`.
pub open spec fn parse_uint_spec(s: Seq<char>, radix: nat, max: nat) -> Option<nat> {
    let d = unsigned_digits(s);
    if d.len() > 0 && digits_value(d, radix) is Some && digits_value(d, radix).unwrap() <= max {
        digits_value(d, radix)
    } else {
        None
    }
}

pub fn digit_of(c: char, radix: u32) -> (r: Option<u32>)
    requires
        2 <= radix <= 36,
    ensures
        match r {
            Some(v) => digit_value(c, radix as nat) == Some(v as nat),
            None => digit_value(c, radix as nat) is None,
        },
{
    let u = c as u32;
    let v: u32 = if 48 <= u && u <= 57 {
        u - 48
    } else if 97 <= u && u <= 122 {
        u - 97 + 10
    } else if 65 <= u && u <= 90 {
        u - 65 + 10
    } else {
        radix
    };
    if v < radix {
        Some(v)
    } else {
        None
    }
}

proof fn lemma_digits_prefix(s: Seq<char>, radix: nat, i: int)
    requires
        radix >= 1,
        0 <= i <= s.len(),
        digits_value(s, radix) is Some,
    ensures
        digits_value(s.take(i), radix) is Some,
        digits_value(s.take(i), radix).unwrap() <= digits_value(s, radix).unwrap(),
    decreases s.len(),
{
    if i < s.len() {
        let h = digits_value(s.drop_last(), radix).unwrap();
        let d = digit_value(s.last(), radix).unwrap();
        assert(s.drop_last().take(i) == s.take(i));
        lemma_digits_prefix(s.drop_last(), radix, i);
        assert(h * radix + d >= h) by (nonlinear_arith)
            requires
                radix >= 1,
        ;
    } else {
        assert(s.take(i) == s);
    }
}

proof fn lemma_digits_invalid(s: Seq<char>, radix: nat, i: int)
    requires
        0 <= i < s.len(),
        digit_value(s[i], radix) is None,
    ensures
        digits_value(s, radix) is None,
    decreases s.len(),
{
    if i < s.len() - 1 {
        assert(s.drop_last()[i] == s[i]);
        lemma_digits_invalid(s.drop_last(), radix, i);
    }
}

/// Reads an unsigned integer as `from_str_radix` does; `None` where it fails.
pub fn parse_uint(v: &[char], radix: u32, max: u64) -> (r: Option<u64>)
    requires
        2 <= radix <= 36,
    ensures
        match r {
            Some(x) => parse_uint_spec(v@, radix as nat, max as nat) == Some(x as nat),
            None => parse_uint_spec(v@, radix as nat, max as nat) is None,
        },
{
    let n = v.len();
    let start: usize = if n > 1 && v[0] == '+' {
        1
    } else {
        0
    };
    let ghost d = unsigned_digits(v@);
    assert(d == v@.skip(start as int));
    if start == n {
        return None;
    }
    let mut acc: u64 = 0;
    let mut i = start;
    while i < n
        invariant
            start <= i <= n == v@.len(),
            d == v@.skip(start as int),
            d == unsigned_digits(v@),
            2 <= radix <= 36,
            acc <= max,
            digits_value(d.take(i - start), radix as nat) == Some(acc as nat),
        decreases n - i,
    {
        let ghost k = (i - start) as int;
        assert(d.take(k + 1).drop_last() == d.take(k));
        assert(d.take(k + 1).last() == v@[i as int]);
        match digit_of(v[i], radix) {
            None => {
                proof {
                    assert(d[k] == v@[i as int]);
                    lemma_digits_invalid(d, radix as nat, k);
                    assert(digits_value(d, radix as nat) is None);
                    assert(d.len() > 0);
                    assert(parse_uint_spec(v@, radix as nat, max as nat) is None);
                }
                return None;
            },
            Some(dg) => {
                if dg as u64 > max || acc > (max - dg as u64) / (radix as u64) {
                    proof {
                        assert(acc * radix + dg > max) by (nonlinear_arith)
                            requires
                                dg > max || acc > (max - dg) / (radix as int),
                                radix >= 2,
                        ;
                        if digits_value(d, radix as nat) is Some {
                            lemma_digits_prefix(d, radix as nat, k + 1);
                        }
                    }
                    return None;
                }
                proof {
                    assert(acc * radix + dg <= max) by (nonlinear_arith)
                        requires
                            acc <= (max - dg) / (radix as int),
                            dg <= max,
                            radix >= 2,
                    ;
                }
                acc = acc * (radix as u64) + dg as u64;
            },
        }
        i = i + 1;
    }
    assert(d.take(n - start) == d);
    Some(acc)
}

// ---------------------------------------------------------------------------
// Decimal output
// ---------------------------------------------------------------------------

/// Decimal digit character for `d < 10`.
pub open spec fn digit_char(d: nat) -> char {
    ((d + 48) as u32) as char
}

/// The decimal representation of `n`, without leading zeros (`"0"` for zero),
/// as `Display` writes unsigned integers.
pub open spec fn dec(n: nat) -> Seq<char>
    decreases n,
{
    if n < 10 {
        seq![digit_char(n)]
    } else {
        dec(n / 10).push(digit_char(n % 10))
    }
}

fn digit_to_char(d: u32) -> (c: char)
    requires
        d < 10,
    ensures
        c == digit_char(d as nat),
{
    if d == 0 {
        '0'
    } else if d == 1 {
        '1'
    } else if d == 2 {
        '2'
    } else if d == 3 {
        '3'
    } else if d == 4 {
        '4'
    } else if d == 5 {
        '5'
    } else if d == 6 {
        '6'
    } else if d == 7 {
        '7'
    } else if d == 8 {
        '8'
    } else {
        '9'
    }
}

/// Appends the decimal representation of `n` to `out`.
pub fn push_dec(out: &mut Vec<char>, n: u128)
    ensures
        final(out)@ == old(out)@ + dec(n as nat),
    decreases n,
{
    if n < 10 {
        out.push(digit_to_char(n as u32));
        assert(dec(n as nat) == seq![digit_char(n as nat)]);
    } else {
        push_dec(out, n / 10);
        out.push(digit_to_char((n % 10) as u32));
    }
}

} // verus!
