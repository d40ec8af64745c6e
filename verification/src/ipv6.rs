//! Text of IPv6 addresses, as `Ipv6Addr` displays them: IPv4-mapped
//! addresses as `::ffff:a.b.c.d`, otherwise lowercase hexadecimal groups with
//! the first longest run of two or more zero groups written as `::`.
use vstd::prelude::*;

use crate::num;
use crate::num::push_dec;

verus! {

broadcast use vstd::seq_lib::group_seq_properties;

pub open spec fn hex_digit_char(d: nat) -> char {
    if d < 10 {
        ((d + 48) as u32) as char
    } else {
        ((d + 87) as u32) as char
    }
}

/// Lowercase hexadecimal text of `n` without leading zeros.
pub open spec fn hex(n: nat) -> Seq<char>
    decreases n,
{
    if n < 16 {
        seq![hex_digit_char(n)]
    } else {
        hex(n / 16).push(hex_digit_char(n % 16))
    }
}

/// The eight 16-bit groups of an address given by its sixteen octets.
pub open spec fn groups(o: Seq<u8>) -> Seq<nat> {
    Seq::new(8, |i: int| (o[2 * i] as nat) * 256 + (o[2 * i + 1] as nat))
}

/// Groups in hexadecimal, separated by `:`.
pub open spec fn join_hex(g: Seq<nat>) -> Seq<char>
    decreases g.len(),
{
    if g.len() == 0 {
        seq![]
    } else if g.len() == 1 {
        hex(g[0])
    } else {
        join_hex(g.drop_last()) + seq![':'] + hex(g.last())
    }
}

pub open spec fn nat_groups(g: Seq<u32>) -> Seq<nat> {
    g.map_values(|x: u32| x as nat)
}

/// `g[s .. s + l]` are all zero.
pub open spec fn zeros_at(g: Seq<nat>, s: int, l: int) -> bool {
    0 <= s && 0 <= l && s + l <= g.len() && forall|k: int| s <= k < s + l ==> g[k] == 0
}

/// `(s, l)` is the first of the longest runs of zero groups.
pub open spec fn longest_zero_run(g: Seq<nat>, s: int, l: int) -> bool {
    &&& zeros_at(g, s, l)
    &&& forall|s2: int, l2: int| zeros_at(g, s2, l2) ==> l2 <= l
    &&& forall|s2: int| l > 0 && zeros_at(g, s2, l) ==> s <= s2
}

pub open spec fn is_ipv4_mapped(g: Seq<nat>) -> bool {
    g[0] == 0 && g[1] == 0 && g[2] == 0 && g[3] == 0 && g[4] == 0 && g[5] == 0xffff
}

/// Text of the IPv6 address with octets `o`.
pub open spec fn ipv6_text(o: Seq<u8>) -> Seq<char> {
    let g = groups(o);
    if is_ipv4_mapped(g) {
        seq![':', ':', 'f', 'f', 'f', 'f', ':'] + num::dec(o[12] as nat) + seq!['.'] + num::dec(
            o[13] as nat,
        ) + seq!['.'] + num::dec(o[14] as nat) + seq!['.'] + num::dec(o[15] as nat)
    } else {
        let (s, l) = choose|s: int, l: int| longest_zero_run(g, s, l);
        if l > 1 {
            join_hex(g.subrange(0, s)) + seq![':', ':'] + join_hex(g.subrange(s + l, 8))
        } else {
            join_hex(g)
        }
    }
}

fn hex_char(d: u32) -> (c: char)
    requires
        d < 16,
    ensures
        c == hex_digit_char(d as nat),
{
    if d < 10 {
        char_from_code(d + 48)
    } else {
        char_from_code(d + 87)
    }
}

fn char_from_code(u: u32) -> (c: char)
    requires
        48 <= u <= 57 || 97 <= u <= 102,
    ensures
        c == (u as char),
{
    if u == 48 {
        '0'
    } else if u == 49 {
        '1'
    } else if u == 50 {
        '2'
    } else if u == 51 {
        '3'
    } else if u == 52 {
        '4'
    } else if u == 53 {
        '5'
    } else if u == 54 {
        '6'
    } else if u == 55 {
        '7'
    } else if u == 56 {
        '8'
    } else if u == 57 {
        '9'
    } else if u == 97 {
        'a'
    } else if u == 98 {
        'b'
    } else if u == 99 {
        'c'
    } else if u == 100 {
        'd'
    } else if u == 101 {
        'e'
    } else {
        'f'
    }
}

fn push_hex(out: &mut Vec<char>, n: u32)
    ensures
        final(out)@ == old(out)@ + hex(n as nat),
    decreases n,
{
    if n < 16 {
        out.push(hex_char(n));
        assert(hex(n as nat) == seq![hex_digit_char(n as nat)]);
    } else {
        push_hex(out, n / 16);
        out.push(hex_char(n % 16));
    }
}

/// Appends the groups `g[lo..hi]` joined by `:`.
fn push_groups(out: &mut Vec<char>, g: &Vec<u32>, lo: usize, hi: usize)
    requires
        lo <= hi <= g@.len(),
    ensures
        final(out)@ == old(out)@ + join_hex(nat_groups(g@.subrange(lo as int, hi as int))),
{
    let ghost gn = nat_groups(g@);
    let mut i = lo;
    while i < hi
        invariant
            lo <= i <= hi <= g@.len(),
            gn == nat_groups(g@),
            out@ == old(out)@ + join_hex(gn.subrange(lo as int, i as int)),
        decreases hi - i,
    {
        let ghost before = out@;
        if i > lo {
            out.push(':');
        }
        push_hex(out, g[i]);
        proof {
            let t = gn.subrange(lo as int, i + 1);
            assert(t.drop_last() == gn.subrange(lo as int, i as int));
            assert(t.last() == g@[i as int] as nat);
            if i == lo {
                assert(t.len() == 1);
            }
        }
        i = i + 1;
    }
    assert(nat_groups(g@.subrange(lo as int, hi as int)) == gn.subrange(
        lo as int,
        hi as int,
    ));
}

/// Length of the run of zero groups that starts at `s`.
fn run_at(g: &Vec<u32>, s: usize) -> (r: usize)
    requires
        s <= g@.len() <= 8,
    ensures
        s + r <= g@.len(),
        zeros_at(nat_groups(g@), s as int, r as int),
        forall|l2: int| #[trigger] zeros_at(nat_groups(g@), s as int, l2) ==> l2 <= r,
{
    let ghost gn = nat_groups(g@);
    let mut r: usize = 0;
    while s + r < g.len() && g[s + r] == 0
        invariant
            s + r <= g@.len() <= 8,
            gn == nat_groups(g@),
            zeros_at(gn, s as int, r as int),
        decreases g.len() - s - r,
    {
        r = r + 1;
    }
    assert forall|l2: int| zeros_at(gn, s as int, l2) implies l2 <= r by {
        if l2 > r {
            assert(gn[s + r] == 0);
        }
    }
    r
}

/// Text of the IPv6 address with octets `o`, as `Ipv6Addr` displays it.
pub fn ipv6_display(o: &Vec<u8>) -> (r: Vec<char>)
    requires
        o@.len() == 16,
    ensures
        r@ == ipv6_text(o@),
{
    let mut g: Vec<u32> = Vec::new();
    let mut i: usize = 0;
    while i < 8
        invariant
            i <= 8,
            o@.len() == 16,
            g@.len() == i,
            forall|k: int| 0 <= k < i ==> g@[k] as nat == groups(o@)[k],
        decreases 8 - i,
    {
        g.push((o[2 * i] as u32) * 256 + (o[2 * i + 1] as u32));
        i = i + 1;
    }
    let ghost gn = nat_groups(g@);
    assert(gn =~= groups(o@));
    let mut out: Vec<char> = Vec::new();
    if g[0] == 0 && g[1] == 0 && g[2] == 0 && g[3] == 0 && g[4] == 0 && g[5] == 0xffff {
        out.push(':');
        out.push(':');
        out.push('f');
        out.push('f');
        out.push('f');
        out.push('f');
        out.push(':');
        push_dec(&mut out, o[12] as u128);
        out.push('.');
        push_dec(&mut out, o[13] as u128);
        out.push('.');
        push_dec(&mut out, o[14] as u128);
        out.push('.');
        push_dec(&mut out, o[15] as u128);
        assert(out@ =~= ipv6_text(o@));
        return out;
    }
    let mut best_s: usize = 0;
    let mut best_l: usize = 0;
    let mut s: usize = 0;
    while s < 8
        invariant
            s <= 8,
            g@.len() == 8,
            gn == nat_groups(g@),
            zeros_at(gn, best_s as int, best_l as int),
            forall|s2: int, l2: int| 0 <= s2 < s && zeros_at(gn, s2, l2) ==> l2 <= best_l,
            forall|s2: int, l2: int| 0 <= s2 < best_s && zeros_at(gn, s2, l2) ==> l2 < best_l,
            best_s <= s,
        decreases 8 - s,
    {
        let r = run_at(&g, s);
        if r > best_l {
            best_s = s;
            best_l = r;
        }
        s = s + 1;
    }
    proof {
        assert forall|s2: int, l2: int| zeros_at(gn, s2, l2) implies l2 <= best_l by {
            if s2 >= 8 {
                assert(l2 == 0);
            }
        }
        assert(longest_zero_run(gn, best_s as int, best_l as int));
        let (cs, cl) = choose|cs: int, cl: int| longest_zero_run(gn, cs, cl);
        assert(longest_zero_run(gn, cs, cl));
        assert(cl == best_l);
        if cl > 0 {
            assert(cs == best_s);
        }
    }
    if best_l > 1 {
        push_groups(&mut out, &g, 0, best_s);
        out.push(':');
        out.push(':');
        push_groups(&mut out, &g, best_s + best_l, 8);
        proof {
            assert(nat_groups(g@.subrange(0, best_s as int)) == gn.subrange(
                0,
                best_s as int,
            ));
            assert(nat_groups(g@.subrange(best_s + best_l, 8)) == gn.subrange(
                best_s + best_l,
                8,
            ));
        }
    } else {
        push_groups(&mut out, &g, 0, 8);
        assert(g@.subrange(0, 8) == g@);
    }
    out
}

} // verus!
