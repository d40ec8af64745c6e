//! Human-readable sizes, rates and durations.
//!
//! Sizes and rates are shown with one decimal in the largest unit that the
//! value exceeds. The value is the byte count converted to `f64` (rounded to
//! 53 significant bits, ties to even) divided by a power of 1024, and the one
//! decimal is the correctly rounded value, ties to even, as `{:.1}` prints it.
use vstd::prelude::*;

use crate::num;
use crate::num::push_dec;
use crate::text::{push_str, string_of};

verus! {

pub open spec fn pow2(e: nat) -> nat
    decreases e,
{
    if e == 0 {
        1
    } else {
        2 * pow2((e - 1) as nat)
    }
}

/// Spacing of the `f64` values near `n`: the least power of two `2^e`
/// (`e` from `from` on) with `n < 2^(53 + e)`.
pub open spec fn f64_unit_from(n: nat, e: nat) -> nat
    decreases 64 - e,
{
    if e >= 64 || n < pow2(53 + e) {
        pow2(e)
    } else {
        f64_unit_from(n, e + 1)
    }
}

/// `a / d` rounded to the nearest integer, ties to even.
pub open spec fn round_half_even(a: nat, d: nat) -> nat {
    let q = a / d;
    let r = a % d;
    if 2 * r < d {
        q
    } else if 2 * r > d {
        q + 1
    } else if q % 2 == 0 {
        q
    } else {
        q + 1
    }
}

/// The value of `n as f64` (round to nearest, ties to even).
pub open spec fn as_f64(n: nat) -> nat {
    let u = f64_unit_from(n, 0);
    round_half_even(n, u) * u
}

/// `{:.1}` of `f / d`: the value in tenths, correctly rounded.
pub open spec fn tenths(f: nat, d: nat) -> nat {
    round_half_even(f * 10, d)
}

/// Text of a number of tenths: integer part, `.`, one digit.
pub open spec fn tenths_text(t: nat) -> Seq<char> {
    num::dec(t / 10) + seq!['.'] + num::dec(t % 10)
}

/// `format_speed`: bytes per second in MB/s, KB/s or B/s.
pub open spec fn speed_text(n: nat) -> Seq<char> {
    let f = as_f64(n);
    if f > pow2(20) {
        tenths_text(tenths(f, pow2(20))) + " MB/s"@
    } else if f > pow2(10) {
        tenths_text(tenths(f, pow2(10))) + " KB/s"@
    } else {
        num::dec(n) + " B/s"@
    }
}

/// `format_bytes`: a size in GB, MB, KB or B.
pub open spec fn bytes_text(n: nat) -> Seq<char> {
    let f = as_f64(n);
    if f > pow2(30) {
        tenths_text(tenths(f, pow2(30))) + " GB"@
    } else if f > pow2(20) {
        tenths_text(tenths(f, pow2(20))) + " MB"@
    } else if f > pow2(10) {
        tenths_text(tenths(f, pow2(10))) + " KB"@
    } else {
        num::dec(n) + " B"@
    }
}

proof fn lemma_pow2_pos(e: nat)
    ensures
        pow2(e) >= 1,
    decreases e,
{
    if e > 0 {
        lemma_pow2_pos((e - 1) as nat);
    }
}

proof fn lemma_pow2_values()
    ensures
        pow2(10) == 1024,
        pow2(20) == 1048576,
        pow2(30) == 1073741824,
        pow2(53) == 0x20_0000_0000_0000,
{
    reveal_with_fuel(pow2, 54);
}

fn round_half_even_exec(a: u128, d: u128) -> (r: u128)
    requires
        d > 0,
        d <= 0x1_0000_0000_0000_0000,
        a <= 0xA_0000_0000_0000_0000,
    ensures
        r == round_half_even(a as nat, d as nat),
{
    assert(a / d <= a) by (nonlinear_arith)
        requires
            d >= 1,
    ;
    let q = a / d;
    let rem = a % d;
    if 2 * rem < d {
        q
    } else if 2 * rem > d {
        q + 1
    } else if q % 2 == 0 {
        q
    } else {
        q + 1
    }
}

/// `n as f64`, as the exact integer it denotes.
pub fn f64_value(n: u64) -> (r: u128)
    ensures
        r == as_f64(n as nat),
        r <= 0x1_0000_0000_0000_0000,
{
    let mut u: u128 = 1;
    let mut e: u32 = 0;
    proof {
        lemma_pow2_values();
        reveal_with_fuel(pow2, 1);
    }
    while (n as u128) >= 0x20_0000_0000_0000 * u
        invariant
            e <= 11,
            u == pow2(e as nat),
            1 <= u <= 0x800,
            pow2(53) == 0x20_0000_0000_0000,
            f64_unit_from(n as nat, 0) == f64_unit_from(n as nat, e as nat),
        decreases 11 - e,
    {
        proof {
            lemma_pow2_add(53, e as nat);
            assert(u < 0x800) by (nonlinear_arith)
                requires
                    0x20_0000_0000_0000 * u <= n,
                    n < 0x1_0000_0000_0000_0000,
            ;
            if e >= 11 {
                lemma_pow2_mono(11, e as nat);
                reveal_with_fuel(pow2, 12);
            }
            assert(f64_unit_from(n as nat, e as nat) == f64_unit_from(n as nat, (e + 1) as nat));
        }
        u = u * 2;
        e = e + 1;
    }
    proof {
        lemma_pow2_add(53, e as nat);
        assert(f64_unit_from(n as nat, e as nat) == u);
    }
    let q = round_half_even_exec(n as u128, u);
    proof {
        let q0 = (n as nat) / (u as nat);
        vstd::arithmetic::div_mod::lemma_fundamental_div_mod(n as int, u as int);
        assert(q0 < 0x20_0000_0000_0000) by (nonlinear_arith)
            requires
                n == u * q0 + (n as nat) % (u as nat),
                (n as nat) % (u as nat) >= 0,
                n < 0x20_0000_0000_0000 * u,
                u >= 1,
        ;
        assert(q * u <= 0x20_0000_0000_0000 * 0x800) by (nonlinear_arith)
            requires
                q <= 0x20_0000_0000_0000,
                u <= 0x800,
        ;
    }
    q * u
}

proof fn lemma_pow2_mono(a: nat, b: nat)
    requires
        a <= b,
    ensures
        pow2(a) <= pow2(b),
    decreases b,
{
    if a < b {
        lemma_pow2_mono(a, (b - 1) as nat);
    }
}

proof fn lemma_pow2_add(a: nat, b: nat)
    ensures
        pow2(a + b) == pow2(a) * pow2(b),
    decreases a,
{
    if a > 0 {
        let a1 = (a - 1) as nat;
        lemma_pow2_add(a1, b);
        assert(a + b == (a1 + b) + 1);
        assert(pow2(a + b) == 2 * pow2(a1 + b));
        assert(pow2(a) == 2 * pow2(a1));
        let x = pow2(a1);
        let y = pow2(b);
        assert(2 * (x * y) == (2 * x) * y) by (nonlinear_arith);
        assert(pow2(a + b) == pow2(a) * pow2(b));
    } else {
        assert(pow2(a) == 1);
        assert(a + b == b);
    }
}

fn push_tenths(out: &mut Vec<char>, f: u128, d: u128)
    requires
        f <= 0x1_0000_0000_0000_0000,
        d > 0,
        d <= 0x1_0000_0000_0000_0000,
    ensures
        final(out)@ == old(out)@ + tenths_text(tenths(f as nat, d as nat)),
{
    let t = round_half_even_exec(f * 10, d);
    push_dec(out, t / 10);
    out.push('.');
    push_dec(out, t % 10);
}

/// Formats a transfer rate: `"{:.1} MB/s"` above 1 MB/s, `"{:.1} KB/s"`
/// above 1 KB/s, otherwise `"{} B/s"`.
pub fn format_speed(bytes_sec: u64) -> (r: String)
    ensures
        r@ == speed_text(bytes_sec as nat),
{
    proof {
        lemma_pow2_values();
    }
    let f = f64_value(bytes_sec);
    let mut out: Vec<char> = Vec::new();
    if f > 1048576 {
        push_tenths(&mut out, f, 1048576);
        push_str(&mut out, " MB/s");
    } else if f > 1024 {
        push_tenths(&mut out, f, 1024);
        push_str(&mut out, " KB/s");
    } else {
        push_dec(&mut out, bytes_sec as u128);
        push_str(&mut out, " B/s");
    }
    string_of(&out)
}

/// Formats a size: `"{:.1} GB"`, `"{:.1} MB"`, `"{:.1} KB"` in the largest
/// unit the size exceeds, otherwise `"{} B"`.
pub fn format_bytes(bytes: u64) -> (r: String)
    ensures
        r@ == bytes_text(bytes as nat),
{
    proof {
        lemma_pow2_values();
    }
    let f = f64_value(bytes);
    let mut out: Vec<char> = Vec::new();
    if f > 1073741824 {
        push_tenths(&mut out, f, 1073741824);
        push_str(&mut out, " GB");
    } else if f > 1048576 {
        push_tenths(&mut out, f, 1048576);
        push_str(&mut out, " MB");
    } else if f > 1024 {
        push_tenths(&mut out, f, 1024);
        push_str(&mut out, " KB");
    } else {
        push_dec(&mut out, bytes as u128);
        push_str(&mut out, " B");
    }
    string_of(&out)
}

/// `format_uptime`: days, hours, minutes and seconds, leading zero units left
/// out (`"{d}d {h}h {m}m {s}s"`, `"{h}h {m}m {s}s"` or `"{m}m {s}s"`).
pub open spec fn uptime_text(secs: nat) -> Seq<char> {
    let days = secs / 86400;
    let hours = (secs % 86400) / 3600;
    let minutes = (secs % 3600) / 60;
    let seconds = secs % 60;
    let hms = num::dec(hours) + "h "@ + num::dec(minutes) + "m "@ + num::dec(seconds) + "s"@;
    if days > 0 {
        num::dec(days) + "d "@ + hms
    } else if hours > 0 {
        hms
    } else {
        num::dec(minutes) + "m "@ + num::dec(seconds) + "s"@
    }
}

pub fn format_uptime(secs: u64) -> (r: String)
    ensures
        r@ == uptime_text(secs as nat),
{
    let days = secs / 86400;
    let hours = (secs % 86400) / 3600;
    let minutes = (secs % 3600) / 60;
    let seconds = secs % 60;
    let mut out: Vec<char> = Vec::new();
    if days > 0 {
        push_dec(&mut out, days as u128);
        push_str(&mut out, "d ");
    }
    if days > 0 || hours > 0 {
        push_dec(&mut out, hours as u128);
        push_str(&mut out, "h ");
    }
    push_dec(&mut out, minutes as u128);
    push_str(&mut out, "m ");
    push_dec(&mut out, seconds as u128);
    push_str(&mut out, "s");
    assert(out@ =~= uptime_text(secs as nat));
    string_of(&out)
}

} // verus!
