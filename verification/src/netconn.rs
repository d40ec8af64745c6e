//! Sockets listed in the `/proc/net/{tcp,tcp6,udp,udp6}` tables, with the
//! processes that own them.
//!
//! The tables and the `/proc/<pid>/fd` links are read by the caller; this
//! module turns their text into `NetworkConnection` records.
use std::collections::HashMap;
use vstd::prelude::*;

use crate::filelock::ProcEntry;
use crate::ipv6;
use crate::num;
use crate::num::{parse_uint, push_dec};
use crate::text;
use crate::text::{chars_of, split_char, string_of, sub_vec};

verus! {

broadcast use vstd::seq_lib::group_seq_properties, vstd::std_specs::hash::group_hash_axioms;

/// An active network socket.
#[derive(Debug, Clone)]
pub struct NetworkConnection {
    /// `"TCP"` or `"UDP"`.
    pub protocol: String,
    /// Local address and port, such as `127.0.0.1:8080`.
    pub local_address: String,
    /// Remote address and port, such as `192.168.1.10:443`, or `*:*` for a listening socket.
    pub remote_address: String,
    /// Connection state (`LISTEN`, `ESTABLISHED`, ... for TCP, `ACTIVE` for UDP).
    pub state: String,
    /// The process that owns the socket, when it was found.
    pub pid: Option<u32>,
    /// The name of that process (`"Unknown"` when none was found).
    pub process_name: String,
}

/// Abstract contents of a connection record.
pub struct ConnView {
    pub protocol: Seq<char>,
    pub local_address: Seq<char>,
    pub remote_address: Seq<char>,
    pub state: Seq<char>,
    pub pid: Option<u32>,
    pub process_name: Seq<char>,
}

impl View for NetworkConnection {
    type V = ConnView;

    open spec fn view(&self) -> ConnView {
        ConnView {
            protocol: self.protocol@,
            local_address: self.local_address@,
            remote_address: self.remote_address@,
            state: self.state@,
            pid: self.pid,
            process_name: self.process_name@,
        }
    }
}

pub open spec fn conn_views(v: Seq<NetworkConnection>) -> Seq<ConnView> {
    v.map_values(|c: NetworkConnection| c@)
}

// ---------------------------------------------------------------------------
// Addresses
// ---------------------------------------------------------------------------

pub open spec fn u32_max() -> nat {
    0xffff_ffff
}

pub open spec fn u16_max() -> nat {
    0xffff
}

/// Dotted-decimal text of an IPv4 address stored in host (little-endian) byte
/// order, followed by `:` and the port.
pub open spec fn ipv4_text(ip: nat, port: nat) -> Seq<char> {
    num::dec(ip % 256) + seq!['.'] + num::dec((ip / 256) % 256) + seq!['.'] + num::dec((ip / 65536) % 256)
        + seq!['.'] + num::dec(ip / 16777216) + seq![':'] + num::dec(port)
}

/// What `parse_ipv4_hex` returns for `s` (`"HHHHHHHH:PPPP"` in hexadecimal).
pub open spec fn ipv4_hex_spec(s: Seq<char>) -> Option<Seq<char>> {
    let parts = text::split(s, ':');
    if parts.len() != 2 {
        None
    } else {
        let ip = num::parse_uint_spec(parts[0], 16, u32_max());
        let port = num::parse_uint_spec(parts[1], 16, u16_max());
        if ip is Some && port is Some {
            Some(ipv4_text(ip.unwrap(), port.unwrap()))
        } else {
            None
        }
    }
}

/// Little-endian bytes of a 32-bit value.
pub open spec fn le_bytes(v: nat) -> Seq<u8> {
    seq![(v % 256) as u8, ((v / 256) % 256) as u8, ((v / 65536) % 256) as u8, (v / 16777216) as u8]
}

/// The 32-bit word written as hexadecimal in characters `8*i .. 8*i+8`.
pub open spec fn ipv6_word(raw: Seq<char>, i: int) -> Option<nat> {
    num::parse_uint_spec(raw.subrange(8 * i, 8 * i + 8), 16, u32_max())
}

/// What `parse_ipv6_hex` returns for `s` (32 hexadecimal digits, `:`, port).
/// Each group of eight digits is a 32-bit word in host byte order.
pub open spec fn ipv6_hex_spec(s: Seq<char>) -> Option<Seq<char>> {
    let parts = text::split(s, ':');
    if parts.len() != 2 {
        None
    } else {
        let raw = parts[0];
        let port = num::parse_uint_spec(parts[1], 16, u16_max());
        if raw.len() != 32 || !text::is_ascii_seq(raw) || port is None {
            None
        } else if ipv6_word(raw, 0) is Some && ipv6_word(raw, 1) is Some && ipv6_word(raw, 2) is Some
            && ipv6_word(raw, 3) is Some {
            let octets = le_bytes(ipv6_word(raw, 0).unwrap()) + le_bytes(ipv6_word(raw, 1).unwrap())
                + le_bytes(ipv6_word(raw, 2).unwrap()) + le_bytes(ipv6_word(raw, 3).unwrap());
            Some(ipv6::ipv6_text(octets) + seq![':'] + num::dec(port.unwrap()))
        } else {
            None
        }
    }
}

fn all_ascii(v: &[char]) -> (r: bool)
    ensures
        r == text::is_ascii_seq(v@),
{
    let mut i: usize = 0;
    while i < v.len()
        invariant
            i <= v@.len(),
            forall|j: int| 0 <= j < i ==> (v@[j] as u32) < 128,
        decreases v.len() - i,
    {
        if (v[i] as u32) >= 128 {
            return false;
        }
        i = i + 1;
    }
    true
}

fn ipv4_chars(v: &[char]) -> (r: Option<Vec<char>>)
    ensures
        match r {
            Some(t) => ipv4_hex_spec(v@) == Some(t@),
            None => ipv4_hex_spec(v@) is None,
        },
{
    let parts = split_char(v, ':');
    assert(text::views(parts@) == text::split(v@, ':'));
    if parts.len() != 2 {
        return None;
    }
    assert(parts@[0]@ == text::split(v@, ':')[0]);
    assert(parts@[1]@ == text::split(v@, ':')[1]);
    let ip = match parse_uint(&parts[0], 16, 0xffff_ffff) {
        Some(x) => x,
        None => return None,
    };
    let port = match parse_uint(&parts[1], 16, 0xffff) {
        Some(x) => x,
        None => return None,
    };
    let mut out: Vec<char> = Vec::new();
    push_dec(&mut out, (ip % 256) as u128);
    out.push('.');
    push_dec(&mut out, ((ip / 256) % 256) as u128);
    out.push('.');
    push_dec(&mut out, ((ip / 65536) % 256) as u128);
    out.push('.');
    push_dec(&mut out, (ip / 16777216) as u128);
    out.push(':');
    push_dec(&mut out, port as u128);
    assert(out@ =~= ipv4_text(ip as nat, port as nat));
    Some(out)
}

/// Parses a `/proc/net/tcp` style IPv4 endpoint (`0100007F:1F90`) into
/// `127.0.0.1:8080`; `None` when it is malformed.
pub fn parse_ipv4_hex(hex_str: &str) -> (r: Option<String>)
    ensures
        match r {
            Some(t) => ipv4_hex_spec(hex_str@) == Some(t@),
            None => ipv4_hex_spec(hex_str@) is None,
        },
{
    let v = chars_of(hex_str);
    match ipv4_chars(&v) {
        Some(t) => Some(string_of(&t)),
        None => None,
    }
}

/// Octets of the first `n` words of `raw`.
pub open spec fn words_bytes(raw: Seq<char>, n: nat) -> Seq<u8>
    decreases n,
{
    if n == 0 {
        seq![]
    } else {
        words_bytes(raw, (n - 1) as nat) + le_bytes(ipv6_word(raw, n - 1).unwrap())
    }
}

fn ipv6_octets(raw: &Vec<char>) -> (r: Option<Vec<u8>>)
    requires
        raw@.len() == 32,
    ensures
        match r {
            Some(o) => ipv6_word(raw@, 0) is Some && ipv6_word(raw@, 1) is Some && ipv6_word(
                raw@,
                2,
            ) is Some && ipv6_word(raw@, 3) is Some && o@ == le_bytes(ipv6_word(raw@, 0).unwrap())
                + le_bytes(ipv6_word(raw@, 1).unwrap()) + le_bytes(ipv6_word(raw@, 2).unwrap())
                + le_bytes(ipv6_word(raw@, 3).unwrap()),
            None => !(ipv6_word(raw@, 0) is Some && ipv6_word(raw@, 1) is Some && ipv6_word(
                raw@,
                2,
            ) is Some && ipv6_word(raw@, 3) is Some),
        },
{
    let mut octets: Vec<u8> = Vec::new();
    let mut i: usize = 0;
    while i < 4
        invariant
            i <= 4,
            raw@.len() == 32,
            forall|k: int| 0 <= k < i ==> ipv6_word(raw@, k) is Some,
            octets@ == words_bytes(raw@, i as nat),
        decreases 4 - i,
    {
        let chunk = sub_vec(raw, 8 * i, 8 * i + 8);
        let w = match parse_uint(&chunk, 16, 0xffff_ffff) {
            Some(x) => x,
            None => {
                assert(ipv6_word(raw@, i as int) is None);
                return None;
            },
        };
        octets.push((w % 256) as u8);
        octets.push(((w / 256) % 256) as u8);
        octets.push(((w / 65536) % 256) as u8);
        octets.push((w / 16777216) as u8);
        assert(octets@ =~= words_bytes(raw@, (i + 1) as nat));
        i = i + 1;
    }
    assert(octets@ == words_bytes(raw@, 4)) ;
    proof {
        reveal_with_fuel(words_bytes, 5);
    }
    Some(octets)
}

fn ipv6_chars(v: &[char]) -> (r: Option<Vec<char>>)
    ensures
        match r {
            Some(t) => ipv6_hex_spec(v@) == Some(t@),
            None => ipv6_hex_spec(v@) is None,
        },
{
    let parts = split_char(v, ':');
    assert(text::views(parts@) == text::split(v@, ':'));
    if parts.len() != 2 {
        return None;
    }
    let raw = &parts[0];
    assert(raw@ == text::split(v@, ':')[0]);
    assert(parts@[1]@ == text::split(v@, ':')[1]);
    if raw.len() != 32 || !all_ascii(raw) {
        return None;
    }
    let port = match parse_uint(&parts[1], 16, 0xffff) {
        Some(x) => x,
        None => return None,
    };
    let octets = match ipv6_octets(raw) {
        Some(o) => o,
        None => return None,
    };
    let mut out = ipv6::ipv6_display(&octets);
    out.push(':');
    push_dec(&mut out, port as u128);
    Some(out)
}

/// Parses a `/proc/net/tcp6` style IPv6 endpoint (32 hexadecimal digits, a
/// colon and the port); `None` when it is malformed.
pub fn parse_ipv6_hex(hex_str: &str) -> (r: Option<String>)
    ensures
        match r {
            Some(t) => ipv6_hex_spec(hex_str@) == Some(t@),
            None => ipv6_hex_spec(hex_str@) is None,
        },
{
    let v = chars_of(hex_str);
    match ipv6_chars(&v) {
        Some(t) => Some(string_of(&t)),
        None => None,
    }
}

// ---------------------------------------------------------------------------
// TCP states
// ---------------------------------------------------------------------------

/// Name of a TCP state written as two hexadecimal digits.
pub open spec fn tcp_state_of(s: Seq<char>) -> Seq<char> {
    if s == seq!['0', '1'] {
        "ESTABLISHED"@
    } else if s == seq!['0', '2'] {
        "SYN_SENT"@
    } else if s == seq!['0', '3'] {
        "SYN_RECV"@
    } else if s == seq!['0', '4'] {
        "FIN_WAIT1"@
    } else if s == seq!['0', '5'] {
        "FIN_WAIT2"@
    } else if s == seq!['0', '6'] {
        "TIME_WAIT"@
    } else if s == seq!['0', '7'] {
        "CLOSE"@
    } else if s == seq!['0', '8'] {
        "CLOSE_WAIT"@
    } else if s == seq!['0', '9'] {
        "LAST_ACK"@
    } else if s == seq!['0', 'A'] {
        "LISTEN"@
    } else if s == seq!['0', 'B'] {
        "CLOSING"@
    } else {
        "UNKNOWN"@
    }
}

/// The state code of a TCP state name (the inverse of `tcp_state_of`).
spec fn tcp_code(n: Seq<char>) -> Seq<char> {
    if n == "ESTABLISHED"@ {
        seq!['0', '1']
    } else if n == "SYN_SENT"@ {
        seq!['0', '2']
    } else if n == "SYN_RECV"@ {
        seq!['0', '3']
    } else if n == "FIN_WAIT1"@ {
        seq!['0', '4']
    } else if n == "FIN_WAIT2"@ {
        seq!['0', '5']
    } else if n == "TIME_WAIT"@ {
        seq!['0', '6']
    } else if n == "CLOSE"@ {
        seq!['0', '7']
    } else if n == "CLOSE_WAIT"@ {
        seq!['0', '8']
    } else if n == "LAST_ACK"@ {
        seq!['0', '9']
    } else if n == "LISTEN"@ {
        seq!['0', 'A']
    } else if n == "CLOSING"@ {
        seq!['0', 'B']
    } else {
        seq![]
    }
}

/// The TCP state names follow the kernel's numbering of `/proc/net/tcp`
/// states: 01 ESTABLISHED, 02 SYN_SENT, 03 SYN_RECV, 04 FIN_WAIT1,
/// 05 FIN_WAIT2, 06 TIME_WAIT, 07 CLOSE, 08 CLOSE_WAIT, 09 LAST_ACK,
/// 0A LISTEN, 0B CLOSING. Different codes get different names, and any
/// other text is UNKNOWN.
pub proof fn lemma_tcp_state_names(a: Seq<char>, b: Seq<char>)
    ensures
        tcp_state_of(seq!['0', '1']) == "ESTABLISHED"@,
        tcp_state_of(seq!['0', '2']) == "SYN_SENT"@,
        tcp_state_of(seq!['0', '3']) == "SYN_RECV"@,
        tcp_state_of(seq!['0', '4']) == "FIN_WAIT1"@,
        tcp_state_of(seq!['0', '5']) == "FIN_WAIT2"@,
        tcp_state_of(seq!['0', '6']) == "TIME_WAIT"@,
        tcp_state_of(seq!['0', '7']) == "CLOSE"@,
        tcp_state_of(seq!['0', '8']) == "CLOSE_WAIT"@,
        tcp_state_of(seq!['0', '9']) == "LAST_ACK"@,
        tcp_state_of(seq!['0', 'A']) == "LISTEN"@,
        tcp_state_of(seq!['0', 'B']) == "CLOSING"@,
        tcp_state_of(a) != "UNKNOWN"@ && tcp_state_of(a) == tcp_state_of(b) ==> a == b,
        !(a.len() == 2 && a[0] == '0' && ('1' <= a[1] <= '9' || a[1] == 'A' || a[1] == 'B'))
            ==> tcp_state_of(a) == "UNKNOWN"@,
{
    reveal_strlit("ESTABLISHED");
    reveal_strlit("SYN_SENT");
    reveal_strlit("SYN_RECV");
    reveal_strlit("FIN_WAIT1");
    reveal_strlit("FIN_WAIT2");
    reveal_strlit("TIME_WAIT");
    reveal_strlit("CLOSE");
    reveal_strlit("CLOSE_WAIT");
    reveal_strlit("LAST_ACK");
    reveal_strlit("LISTEN");
    reveal_strlit("CLOSING");
    reveal_strlit("UNKNOWN");
    if a.len() == 2 && a[0] == '0' && ('1' <= a[1] <= '9' || a[1] == 'A' || a[1] == 'B') {
        assert(a == seq!['0', a[1]]);
        lemma_tcp_code(a);
    } else {
        assert(a != seq!['0', '1'] && a != seq!['0', '2'] && a != seq!['0', '3'] && a != seq!['0', '4']
            && a != seq!['0', '5'] && a != seq!['0', '6'] && a != seq!['0', '7'] && a != seq!['0', '8']
            && a != seq!['0', '9'] && a != seq!['0', 'A'] && a != seq!['0', 'B']);
    }
    if b.len() == 2 && b[0] == '0' && ('1' <= b[1] <= '9' || b[1] == 'A' || b[1] == 'B') {
        assert(b == seq!['0', b[1]]);
        lemma_tcp_code(b);
    } else {
        assert(b != seq!['0', '1'] && b != seq!['0', '2'] && b != seq!['0', '3'] && b != seq!['0', '4']
            && b != seq!['0', '5'] && b != seq!['0', '6'] && b != seq!['0', '7'] && b != seq!['0', '8']
            && b != seq!['0', '9'] && b != seq!['0', 'A'] && b != seq!['0', 'B']);
    }
}

proof fn lemma_tcp_code(a: Seq<char>)
    requires
        a.len() == 2 && a[0] == '0' && ('1' <= a[1] <= '9' || a[1] == 'A' || a[1] == 'B'),
    ensures
        tcp_code(tcp_state_of(a)) == a,
        tcp_state_of(a) != "UNKNOWN"@,
{
    if a[1] == '1' {
        assert(a == seq!['0', '1']);
        assert("ESTABLISHED"@ != "UNKNOWN"@) by {
            reveal_strlit("ESTABLISHED");
            reveal_strlit("UNKNOWN");
            assert("ESTABLISHED"@.len() != "UNKNOWN"@.len());
        }
        assert(tcp_state_of(a) == "ESTABLISHED"@);
    } else if a[1] == '2' {
        assert(a == seq!['0', '2']);
        assert("SYN_SENT"@ != "ESTABLISHED"@) by {
            reveal_strlit("SYN_SENT");
            reveal_strlit("ESTABLISHED");
            assert("SYN_SENT"@.len() != "ESTABLISHED"@.len());
        }
        assert("SYN_SENT"@ != "UNKNOWN"@) by {
            reveal_strlit("SYN_SENT");
            reveal_strlit("UNKNOWN");
            assert("SYN_SENT"@.len() != "UNKNOWN"@.len());
        }
        assert(tcp_state_of(a) == "SYN_SENT"@);
    } else if a[1] == '3' {
        assert(a == seq!['0', '3']);
        assert("SYN_RECV"@ != "ESTABLISHED"@) by {
            reveal_strlit("SYN_RECV");
            reveal_strlit("ESTABLISHED");
            assert("SYN_RECV"@.len() != "ESTABLISHED"@.len());
        }
        assert("SYN_RECV"@ != "SYN_SENT"@) by {
            reveal_strlit("SYN_RECV");
            reveal_strlit("SYN_SENT");
            assert("SYN_RECV"@[4] != "SYN_SENT"@[4]);
        }
        assert("SYN_RECV"@ != "UNKNOWN"@) by {
            reveal_strlit("SYN_RECV");
            reveal_strlit("UNKNOWN");
            assert("SYN_RECV"@.len() != "UNKNOWN"@.len());
        }
        assert(tcp_state_of(a) == "SYN_RECV"@);
    } else if a[1] == '4' {
        assert(a == seq!['0', '4']);
        assert("FIN_WAIT1"@ != "ESTABLISHED"@) by {
            reveal_strlit("FIN_WAIT1");
            reveal_strlit("ESTABLISHED");
            assert("FIN_WAIT1"@.len() != "ESTABLISHED"@.len());
        }
        assert("FIN_WAIT1"@ != "SYN_SENT"@) by {
            reveal_strlit("FIN_WAIT1");
            reveal_strlit("SYN_SENT");
            assert("FIN_WAIT1"@.len() != "SYN_SENT"@.len());
        }
        assert("FIN_WAIT1"@ != "SYN_RECV"@) by {
            reveal_strlit("FIN_WAIT1");
            reveal_strlit("SYN_RECV");
            assert("FIN_WAIT1"@.len() != "SYN_RECV"@.len());
        }
        assert("FIN_WAIT1"@ != "UNKNOWN"@) by {
            reveal_strlit("FIN_WAIT1");
            reveal_strlit("UNKNOWN");
            assert("FIN_WAIT1"@.len() != "UNKNOWN"@.len());
        }
        assert(tcp_state_of(a) == "FIN_WAIT1"@);
    } else if a[1] == '5' {
        assert(a == seq!['0', '5']);
        assert("FIN_WAIT2"@ != "ESTABLISHED"@) by {
            reveal_strlit("FIN_WAIT2");
            reveal_strlit("ESTABLISHED");
            assert("FIN_WAIT2"@.len() != "ESTABLISHED"@.len());
        }
        assert("FIN_WAIT2"@ != "SYN_SENT"@) by {
            reveal_strlit("FIN_WAIT2");
            reveal_strlit("SYN_SENT");
            assert("FIN_WAIT2"@.len() != "SYN_SENT"@.len());
        }
        assert("FIN_WAIT2"@ != "SYN_RECV"@) by {
            reveal_strlit("FIN_WAIT2");
            reveal_strlit("SYN_RECV");
            assert("FIN_WAIT2"@.len() != "SYN_RECV"@.len());
        }
        assert("FIN_WAIT2"@ != "FIN_WAIT1"@) by {
            reveal_strlit("FIN_WAIT2");
            reveal_strlit("FIN_WAIT1");
            assert("FIN_WAIT2"@[8] != "FIN_WAIT1"@[8]);
        }
        assert("FIN_WAIT2"@ != "UNKNOWN"@) by {
            reveal_strlit("FIN_WAIT2");
            reveal_strlit("UNKNOWN");
            assert("FIN_WAIT2"@.len() != "UNKNOWN"@.len());
        }
        assert(tcp_state_of(a) == "FIN_WAIT2"@);
    } else if a[1] == '6' {
        assert(a == seq!['0', '6']);
        assert("TIME_WAIT"@ != "ESTABLISHED"@) by {
            reveal_strlit("TIME_WAIT");
            reveal_strlit("ESTABLISHED");
            assert("TIME_WAIT"@.len() != "ESTABLISHED"@.len());
        }
        assert("TIME_WAIT"@ != "SYN_SENT"@) by {
            reveal_strlit("TIME_WAIT");
            reveal_strlit("SYN_SENT");
            assert("TIME_WAIT"@.len() != "SYN_SENT"@.len());
        }
        assert("TIME_WAIT"@ != "SYN_RECV"@) by {
            reveal_strlit("TIME_WAIT");
            reveal_strlit("SYN_RECV");
            assert("TIME_WAIT"@.len() != "SYN_RECV"@.len());
        }
        assert("TIME_WAIT"@ != "FIN_WAIT1"@) by {
            reveal_strlit("TIME_WAIT");
            reveal_strlit("FIN_WAIT1");
            assert("TIME_WAIT"@[0] != "FIN_WAIT1"@[0]);
        }
        assert("TIME_WAIT"@ != "FIN_WAIT2"@) by {
            reveal_strlit("TIME_WAIT");
            reveal_strlit("FIN_WAIT2");
            assert("TIME_WAIT"@[0] != "FIN_WAIT2"@[0]);
        }
        assert("TIME_WAIT"@ != "UNKNOWN"@) by {
            reveal_strlit("TIME_WAIT");
            reveal_strlit("UNKNOWN");
            assert("TIME_WAIT"@.len() != "UNKNOWN"@.len());
        }
        assert(tcp_state_of(a) == "TIME_WAIT"@);
    } else if a[1] == '7' {
        assert(a == seq!['0', '7']);
        assert("CLOSE"@ != "ESTABLISHED"@) by {
            reveal_strlit("CLOSE");
            reveal_strlit("ESTABLISHED");
            assert("CLOSE"@.len() != "ESTABLISHED"@.len());
        }
        assert("CLOSE"@ != "SYN_SENT"@) by {
            reveal_strlit("CLOSE");
            reveal_strlit("SYN_SENT");
            assert("CLOSE"@.len() != "SYN_SENT"@.len());
        }
        assert("CLOSE"@ != "SYN_RECV"@) by {
            reveal_strlit("CLOSE");
            reveal_strlit("SYN_RECV");
            assert("CLOSE"@.len() != "SYN_RECV"@.len());
        }
        assert("CLOSE"@ != "FIN_WAIT1"@) by {
            reveal_strlit("CLOSE");
            reveal_strlit("FIN_WAIT1");
            assert("CLOSE"@.len() != "FIN_WAIT1"@.len());
        }
        assert("CLOSE"@ != "FIN_WAIT2"@) by {
            reveal_strlit("CLOSE");
            reveal_strlit("FIN_WAIT2");
            assert("CLOSE"@.len() != "FIN_WAIT2"@.len());
        }
        assert("CLOSE"@ != "TIME_WAIT"@) by {
            reveal_strlit("CLOSE");
            reveal_strlit("TIME_WAIT");
            assert("CLOSE"@.len() != "TIME_WAIT"@.len());
        }
        assert("CLOSE"@ != "UNKNOWN"@) by {
            reveal_strlit("CLOSE");
            reveal_strlit("UNKNOWN");
            assert("CLOSE"@.len() != "UNKNOWN"@.len());
        }
        assert(tcp_state_of(a) == "CLOSE"@);
    } else if a[1] == '8' {
        assert(a == seq!['0', '8']);
        assert("CLOSE_WAIT"@ != "ESTABLISHED"@) by {
            reveal_strlit("CLOSE_WAIT");
            reveal_strlit("ESTABLISHED");
            assert("CLOSE_WAIT"@.len() != "ESTABLISHED"@.len());
        }
        assert("CLOSE_WAIT"@ != "SYN_SENT"@) by {
            reveal_strlit("CLOSE_WAIT");
            reveal_strlit("SYN_SENT");
            assert("CLOSE_WAIT"@.len() != "SYN_SENT"@.len());
        }
        assert("CLOSE_WAIT"@ != "SYN_RECV"@) by {
            reveal_strlit("CLOSE_WAIT");
            reveal_strlit("SYN_RECV");
            assert("CLOSE_WAIT"@.len() != "SYN_RECV"@.len());
        }
        assert("CLOSE_WAIT"@ != "FIN_WAIT1"@) by {
            reveal_strlit("CLOSE_WAIT");
            reveal_strlit("FIN_WAIT1");
            assert("CLOSE_WAIT"@.len() != "FIN_WAIT1"@.len());
        }
        assert("CLOSE_WAIT"@ != "FIN_WAIT2"@) by {
            reveal_strlit("CLOSE_WAIT");
            reveal_strlit("FIN_WAIT2");
            assert("CLOSE_WAIT"@.len() != "FIN_WAIT2"@.len());
        }
        assert("CLOSE_WAIT"@ != "TIME_WAIT"@) by {
            reveal_strlit("CLOSE_WAIT");
            reveal_strlit("TIME_WAIT");
            assert("CLOSE_WAIT"@.len() != "TIME_WAIT"@.len());
        }
        assert("CLOSE_WAIT"@ != "CLOSE"@) by {
            reveal_strlit("CLOSE_WAIT");
            reveal_strlit("CLOSE");
            assert("CLOSE_WAIT"@.len() != "CLOSE"@.len());
        }
        assert("CLOSE_WAIT"@ != "UNKNOWN"@) by {
            reveal_strlit("CLOSE_WAIT");
            reveal_strlit("UNKNOWN");
            assert("CLOSE_WAIT"@.len() != "UNKNOWN"@.len());
        }
        assert(tcp_state_of(a) == "CLOSE_WAIT"@);
    } else if a[1] == '9' {
        assert(a == seq!['0', '9']);
        assert("LAST_ACK"@ != "ESTABLISHED"@) by {
            reveal_strlit("LAST_ACK");
            reveal_strlit("ESTABLISHED");
            assert("LAST_ACK"@.len() != "ESTABLISHED"@.len());
        }
        assert("LAST_ACK"@ != "SYN_SENT"@) by {
            reveal_strlit("LAST_ACK");
            reveal_strlit("SYN_SENT");
            assert("LAST_ACK"@[0] != "SYN_SENT"@[0]);
        }
        assert("LAST_ACK"@ != "SYN_RECV"@) by {
            reveal_strlit("LAST_ACK");
            reveal_strlit("SYN_RECV");
            assert("LAST_ACK"@[0] != "SYN_RECV"@[0]);
        }
        assert("LAST_ACK"@ != "FIN_WAIT1"@) by {
            reveal_strlit("LAST_ACK");
            reveal_strlit("FIN_WAIT1");
            assert("LAST_ACK"@.len() != "FIN_WAIT1"@.len());
        }
        assert("LAST_ACK"@ != "FIN_WAIT2"@) by {
            reveal_strlit("LAST_ACK");
            reveal_strlit("FIN_WAIT2");
            assert("LAST_ACK"@.len() != "FIN_WAIT2"@.len());
        }
        assert("LAST_ACK"@ != "TIME_WAIT"@) by {
            reveal_strlit("LAST_ACK");
            reveal_strlit("TIME_WAIT");
            assert("LAST_ACK"@.len() != "TIME_WAIT"@.len());
        }
        assert("LAST_ACK"@ != "CLOSE"@) by {
            reveal_strlit("LAST_ACK");
            reveal_strlit("CLOSE");
            assert("LAST_ACK"@.len() != "CLOSE"@.len());
        }
        assert("LAST_ACK"@ != "CLOSE_WAIT"@) by {
            reveal_strlit("LAST_ACK");
            reveal_strlit("CLOSE_WAIT");
            assert("LAST_ACK"@.len() != "CLOSE_WAIT"@.len());
        }
        assert("LAST_ACK"@ != "UNKNOWN"@) by {
            reveal_strlit("LAST_ACK");
            reveal_strlit("UNKNOWN");
            assert("LAST_ACK"@.len() != "UNKNOWN"@.len());
        }
        assert(tcp_state_of(a) == "LAST_ACK"@);
    } else if a[1] == 'A' {
        assert(a == seq!['0', 'A']);
        assert("LISTEN"@ != "ESTABLISHED"@) by {
            reveal_strlit("LISTEN");
            reveal_strlit("ESTABLISHED");
            assert("LISTEN"@.len() != "ESTABLISHED"@.len());
        }
        assert("LISTEN"@ != "SYN_SENT"@) by {
            reveal_strlit("LISTEN");
            reveal_strlit("SYN_SENT");
            assert("LISTEN"@.len() != "SYN_SENT"@.len());
        }
        assert("LISTEN"@ != "SYN_RECV"@) by {
            reveal_strlit("LISTEN");
            reveal_strlit("SYN_RECV");
            assert("LISTEN"@.len() != "SYN_RECV"@.len());
        }
        assert("LISTEN"@ != "FIN_WAIT1"@) by {
            reveal_strlit("LISTEN");
            reveal_strlit("FIN_WAIT1");
            assert("LISTEN"@.len() != "FIN_WAIT1"@.len());
        }
        assert("LISTEN"@ != "FIN_WAIT2"@) by {
            reveal_strlit("LISTEN");
            reveal_strlit("FIN_WAIT2");
            assert("LISTEN"@.len() != "FIN_WAIT2"@.len());
        }
        assert("LISTEN"@ != "TIME_WAIT"@) by {
            reveal_strlit("LISTEN");
            reveal_strlit("TIME_WAIT");
            assert("LISTEN"@.len() != "TIME_WAIT"@.len());
        }
        assert("LISTEN"@ != "CLOSE"@) by {
            reveal_strlit("LISTEN");
            reveal_strlit("CLOSE");
            assert("LISTEN"@.len() != "CLOSE"@.len());
        }
        assert("LISTEN"@ != "CLOSE_WAIT"@) by {
            reveal_strlit("LISTEN");
            reveal_strlit("CLOSE_WAIT");
            assert("LISTEN"@.len() != "CLOSE_WAIT"@.len());
        }
        assert("LISTEN"@ != "LAST_ACK"@) by {
            reveal_strlit("LISTEN");
            reveal_strlit("LAST_ACK");
            assert("LISTEN"@.len() != "LAST_ACK"@.len());
        }
        assert("LISTEN"@ != "UNKNOWN"@) by {
            reveal_strlit("LISTEN");
            reveal_strlit("UNKNOWN");
            assert("LISTEN"@.len() != "UNKNOWN"@.len());
        }
        assert(tcp_state_of(a) == "LISTEN"@);
    } else if a[1] == 'B' {
        assert(a == seq!['0', 'B']);
        assert("CLOSING"@ != "ESTABLISHED"@) by {
            reveal_strlit("CLOSING");
            reveal_strlit("ESTABLISHED");
            assert("CLOSING"@.len() != "ESTABLISHED"@.len());
        }
        assert("CLOSING"@ != "SYN_SENT"@) by {
            reveal_strlit("CLOSING");
            reveal_strlit("SYN_SENT");
            assert("CLOSING"@.len() != "SYN_SENT"@.len());
        }
        assert("CLOSING"@ != "SYN_RECV"@) by {
            reveal_strlit("CLOSING");
            reveal_strlit("SYN_RECV");
            assert("CLOSING"@.len() != "SYN_RECV"@.len());
        }
        assert("CLOSING"@ != "FIN_WAIT1"@) by {
            reveal_strlit("CLOSING");
            reveal_strlit("FIN_WAIT1");
            assert("CLOSING"@.len() != "FIN_WAIT1"@.len());
        }
        assert("CLOSING"@ != "FIN_WAIT2"@) by {
            reveal_strlit("CLOSING");
            reveal_strlit("FIN_WAIT2");
            assert("CLOSING"@.len() != "FIN_WAIT2"@.len());
        }
        assert("CLOSING"@ != "TIME_WAIT"@) by {
            reveal_strlit("CLOSING");
            reveal_strlit("TIME_WAIT");
            assert("CLOSING"@.len() != "TIME_WAIT"@.len());
        }
        assert("CLOSING"@ != "CLOSE"@) by {
            reveal_strlit("CLOSING");
            reveal_strlit("CLOSE");
            assert("CLOSING"@.len() != "CLOSE"@.len());
        }
        assert("CLOSING"@ != "CLOSE_WAIT"@) by {
            reveal_strlit("CLOSING");
            reveal_strlit("CLOSE_WAIT");
            assert("CLOSING"@.len() != "CLOSE_WAIT"@.len());
        }
        assert("CLOSING"@ != "LAST_ACK"@) by {
            reveal_strlit("CLOSING");
            reveal_strlit("LAST_ACK");
            assert("CLOSING"@.len() != "LAST_ACK"@.len());
        }
        assert("CLOSING"@ != "LISTEN"@) by {
            reveal_strlit("CLOSING");
            reveal_strlit("LISTEN");
            assert("CLOSING"@.len() != "LISTEN"@.len());
        }
        assert("CLOSING"@ != "UNKNOWN"@) by {
            reveal_strlit("CLOSING");
            reveal_strlit("UNKNOWN");
            assert("CLOSING"@[0] != "UNKNOWN"@[0]);
        }
        assert(tcp_state_of(a) == "CLOSING"@);
    }
}

fn tcp_state_chars(v: &[char]) -> (r: &'static str)
    ensures
        r@ == tcp_state_of(v@),
{
    if v.len() != 2 || v[0] != '0' {
        assert(forall|c: char| v@ != seq!['0', c]);
        return "UNKNOWN";
    }
    let c = v[1];
    assert(v@ == seq!['0', c]);
    if c == '1' {
        "ESTABLISHED"
    } else if c == '2' {
        "SYN_SENT"
    } else if c == '3' {
        "SYN_RECV"
    } else if c == '4' {
        "FIN_WAIT1"
    } else if c == '5' {
        "FIN_WAIT2"
    } else if c == '6' {
        "TIME_WAIT"
    } else if c == '7' {
        "CLOSE"
    } else if c == '8' {
        "CLOSE_WAIT"
    } else if c == '9' {
        "LAST_ACK"
    } else if c == 'A' {
        "LISTEN"
    } else if c == 'B' {
        "CLOSING"
    } else {
        "UNKNOWN"
    }
}

/// Maps a TCP state code from `/proc/net/tcp` (such as `0A`) to its name.
pub fn get_tcp_state(state_hex: &str) -> (r: &'static str)
    ensures
        r@ == tcp_state_of(state_hex@),
{
    let v = chars_of(state_hex);
    tcp_state_chars(&v)
}

// ---------------------------------------------------------------------------
// Socket tables
// ---------------------------------------------------------------------------

pub open spec fn u64_max() -> nat {
    0xffff_ffff_ffff_ffff
}

/// Address text of an endpoint, or `"Invalid"` when it does not parse.
pub open spec fn endpoint_text(s: Seq<char>, is_ipv6: bool) -> Seq<char> {
    let r = if is_ipv6 {
        ipv6_hex_spec(s)
    } else {
        ipv4_hex_spec(s)
    };
    if r is Some {
        r.unwrap()
    } else {
        "Invalid"@
    }
}

/// The text of an unspecified endpoint (address and port zero).
pub open spec fn unset_endpoint(is_ipv6: bool) -> Seq<char> {
    if is_ipv6 {
        ":::0"@
    } else {
        "0.0.0.0:0"@
    }
}

/// The remote address shown for a socket: `*:*` for a listening socket whose
/// remote endpoint is unset, otherwise the endpoint's text.
pub open spec fn remote_text(remote: Seq<char>, state: Seq<char>, is_ipv6: bool) -> Seq<char> {
    let e = endpoint_text(remote, is_ipv6);
    if state == "LISTEN"@ && e == unset_endpoint(is_ipv6) {
        "*:*"@
    } else {
        e
    }
}

/// The socket inode in a table row (0 when it does not parse).
pub open spec fn row_inode(s: Seq<char>) -> nat {
    let r = num::parse_uint_spec(s, 10, u64_max());
    if r is Some {
        r.unwrap()
    } else {
        0
    }
}

/// The connection described by one line of a `/proc/net` socket table.
/// Lines with fewer than ten fields are skipped.
pub open spec fn line_conn(
    line: Seq<char>,
    protocol: Seq<char>,
    is_ipv6: bool,
    owners: Map<u64, (u32, String)>,
) -> Option<ConnView> {
    let t = text::trim(line);
    let parts = text::words(t);
    if t.len() == 0 || parts.len() < 10 {
        None
    } else {
        let inode = row_inode(parts[9]);
        let owned = inode > 0 && owners.contains_key(inode as u64);
        let state = if protocol == "TCP"@ {
            tcp_state_of(parts[3])
        } else {
            "ACTIVE"@
        };
        Some(
            ConnView {
                protocol: protocol,
                local_address: endpoint_text(parts[1], is_ipv6),
                remote_address: remote_text(parts[2], state, is_ipv6),
                state: state,
                pid: if owned {
                    Some(owners[inode as u64].0)
                } else {
                    None
                },
                process_name: if owned {
                    owners[inode as u64].1@
                } else {
                    "Unknown"@
                },
            },
        )
    }
}

/// Connections of a sequence of table lines, in order.
pub open spec fn lines_conns(
    ls: Seq<Seq<char>>,
    protocol: Seq<char>,
    is_ipv6: bool,
    owners: Map<u64, (u32, String)>,
) -> Seq<ConnView>
    decreases ls.len(),
{
    if ls.len() == 0 {
        seq![]
    } else {
        let rest = lines_conns(ls.drop_last(), protocol, is_ipv6, owners);
        match line_conn(ls.last(), protocol, is_ipv6, owners) {
            Some(c) => rest.push(c),
            None => rest,
        }
    }
}

/// Connections listed by a socket table: every line after the header.
pub open spec fn table_conns(
    content: Seq<char>,
    protocol: Seq<char>,
    is_ipv6: bool,
    owners: Map<u64, (u32, String)>,
) -> Seq<ConnView> {
    let ls = text::lines(content);
    if ls.len() == 0 {
        seq![]
    } else {
        lines_conns(ls.drop_first(), protocol, is_ipv6, owners)
    }
}

fn endpoint(v: &[char], is_ipv6: bool) -> (r: String)
    ensures
        r@ == endpoint_text(v@, is_ipv6),
{
    let t = if is_ipv6 {
        ipv6_chars(v)
    } else {
        ipv4_chars(v)
    };
    match t {
        Some(t) => string_of(&t),
        None => String::from_str("Invalid"),
    }
}

fn line_connection(
    line: &[char],
    protocol: &str,
    is_tcp: bool,
    is_ipv6: bool,
    owners: &HashMap<u64, (u32, String)>,
) -> (r: Option<NetworkConnection>)
    requires
        is_tcp == (protocol@ == "TCP"@),
    ensures
        match r {
            Some(c) => line_conn(line@, protocol@, is_ipv6, owners@) == Some(c@),
            None => line_conn(line@, protocol@, is_ipv6, owners@) is None,
        },
{
    let t = text::trim_chars(line);
    if t.len() == 0 {
        return None;
    }
    let parts = text::split_ws(&t);
    if parts.len() < 10 {
        return None;
    }
    let ghost ps = text::words(t@);
    assert(parts@[1]@ == ps[1]);
    assert(parts@[2]@ == ps[2]);
    assert(parts@[3]@ == ps[3]);
    assert(parts@[9]@ == ps[9]);
    let local_address = endpoint(&parts[1], is_ipv6);
    let remote_endpoint = endpoint(&parts[2], is_ipv6);
    let state = if is_tcp {
        String::from_str(tcp_state_chars(&parts[3]))
    } else {
        String::from_str("ACTIVE")
    };
    let unset = if is_ipv6 {
        ":::0"
    } else {
        "0.0.0.0:0"
    };
    let listening = text::chars_equal(&chars_of(state.as_str()), &chars_of("LISTEN"));
    let remote_address = if listening && text::chars_equal(
        &chars_of(remote_endpoint.as_str()),
        &chars_of(unset),
    ) {
        String::from_str("*:*")
    } else {
        remote_endpoint
    };
    let inode: u64 = match parse_uint(&parts[9], 10, 0xffff_ffff_ffff_ffff) {
        Some(x) => x,
        None => 0,
    };
    let mut pid: Option<u32> = None;
    let mut process_name = String::from_str("Unknown");
    if inode > 0 {
        match owners.get(&inode) {
            Some(owner) => {
                pid = Some(owner.0);
                process_name = owner.1.clone();
            },
            None => {},
        }
    }
    let c = NetworkConnection {
        protocol: String::from_str(protocol),
        local_address,
        remote_address,
        state,
        pid,
        process_name,
    };
    assert(line_conn(line@, protocol@, is_ipv6, owners@) == Some(c@));
    Some(c)
}

/// Appends the connections listed by one socket table (`content`), whose rows
/// carry `protocol` (`"TCP"` or `"UDP"`); `owners` maps socket inodes to the
/// owning process.
pub fn parse_proc_net_file(
    content: &str,
    protocol: &str,
    is_ipv6: bool,
    owners: &HashMap<u64, (u32, String)>,
    list: &mut Vec<NetworkConnection>,
)
    ensures
        conn_views(final(list)@) == conn_views(old(list)@) + table_conns(
            content@,
            protocol@,
            is_ipv6,
            owners@,
        ),
{
    let is_tcp = text::chars_equal(&chars_of(protocol), &chars_of("TCP"));
    let v = chars_of(content);
    let ls = text::split_lines(&v);
    let ghost lv = text::views(ls@);
    if ls.len() == 0 {
        assert(conn_views(list@) =~= conn_views(old(list)@) + seq![]);
        return;
    }
    let mut i: usize = 1;
    while i < ls.len()
        invariant
            1 <= i <= ls@.len(),
            lv == text::views(ls@),
            is_tcp == (protocol@ == "TCP"@),
            conn_views(list@) == conn_views(old(list)@) + lines_conns(
                lv.subrange(1, i as int),
                protocol@,
                is_ipv6,
                owners@,
            ),
        decreases ls.len() - i,
    {
        let ghost before = conn_views(list@);
        let ghost sub = lv.subrange(1, i + 1);
        assert(sub.drop_last() == lv.subrange(1, i as int));
        assert(sub.last() == ls@[i as int]@);
        match line_connection(&ls[i], protocol, is_tcp, is_ipv6, owners) {
            Some(c) => {
                list.push(c);
                assert(conn_views(list@) =~= before.push(c@));
            },
            None => {},
        }
        i = i + 1;
    }
    assert(lv.subrange(1, lv.len() as int) == lv.drop_first());
}

/// The four socket tables of `/proc/net`, as read (`None` when unreadable).
pub struct ProcNetTables {
    pub tcp: Option<String>,
    pub tcp6: Option<String>,
    pub udp: Option<String>,
    pub udp6: Option<String>,
}

pub open spec fn opt_table_conns(
    content: Option<String>,
    protocol: Seq<char>,
    is_ipv6: bool,
    owners: Map<u64, (u32, String)>,
) -> Seq<ConnView> {
    match content {
        Some(c) => table_conns(c@, protocol, is_ipv6, owners),
        None => seq![],
    }
}

/// All active sockets: TCP over IPv4 and IPv6, then UDP over IPv4 and IPv6,
/// each with its owner from `owners` when the inode is known there.
pub fn get_active_connections(
    tables: &ProcNetTables,
    owners: &HashMap<u64, (u32, String)>,
) -> (r: Vec<NetworkConnection>)
    ensures
        conn_views(r@) == opt_table_conns(tables.tcp, "TCP"@, false, owners@) + opt_table_conns(
            tables.tcp6,
            "TCP"@,
            true,
            owners@,
        ) + opt_table_conns(tables.udp, "UDP"@, false, owners@) + opt_table_conns(
            tables.udp6,
            "UDP"@,
            true,
            owners@,
        ),
{
    let mut list: Vec<NetworkConnection> = Vec::new();
    assert(conn_views(list@) =~= seq![]);
    if let Some(c) = &tables.tcp {
        parse_proc_net_file(c.as_str(), "TCP", false, owners, &mut list);
    }
    if let Some(c) = &tables.tcp6 {
        parse_proc_net_file(c.as_str(), "TCP", true, owners, &mut list);
    }
    if let Some(c) = &tables.udp {
        parse_proc_net_file(c.as_str(), "UDP", false, owners, &mut list);
    }
    if let Some(c) = &tables.udp6 {
        parse_proc_net_file(c.as_str(), "UDP", true, owners, &mut list);
    }
    assert(conn_views(list@) =~= opt_table_conns(tables.tcp, "TCP"@, false, owners@)
        + opt_table_conns(tables.tcp6, "TCP"@, true, owners@) + opt_table_conns(
        tables.udp,
        "UDP"@,
        false,
        owners@,
    ) + opt_table_conns(tables.udp6, "UDP"@, true, owners@));
    list
}

// ---------------------------------------------------------------------------
// Socket owners
// ---------------------------------------------------------------------------

pub open spec fn socket_prefix() -> Seq<char> {
    seq!['s', 'o', 'c', 'k', 'e', 't', ':', '[']
}

/// The inode named by a file-descriptor link target of the form
/// `socket:[<inode>]`.
pub open spec fn socket_inode_spec(target: Seq<char>) -> Option<nat> {
    if text::has_prefix(target, socket_prefix()) && text::has_suffix(target, seq![']']) {
        num::parse_uint_spec(target.subrange(8, target.len() - 1), 10, u64_max())
    } else {
        None
    }
}

/// Inode of a socket link target such as `socket:[12345]`.
pub fn socket_inode(target: &str) -> (r: Option<u64>)
    ensures
        match r {
            Some(i) => socket_inode_spec(target@) == Some(i as nat),
            None => socket_inode_spec(target@) is None,
        },
{
    let v = chars_of(target);
    let prefix: Vec<char> = vec!['s', 'o', 'c', 'k', 'e', 't', ':', '['];
    let suffix: Vec<char> = vec![']'];
    assert(prefix@ == socket_prefix());
    assert(suffix@ == seq![']']);
    if !text::starts_with(&v, &prefix) || !text::ends_with(&v, &suffix) {
        return None;
    }
    if v.len() < 9 {
        assert(v@.take(8) == socket_prefix());
        assert(v@[7] == '[');
        assert(v@.skip(v@.len() - 1)[0] == v@[v@.len() - 1]);
        return None;
    }
    let inner = sub_vec(&v, 8, v.len() - 1);
    parse_uint(&inner, 10, 0xffff_ffff_ffff_ffff)
}

/// Sockets recorded for one process: each link target that names a socket
/// maps its inode to `(pid, name)`, later links overriding earlier ones.
pub open spec fn record_sockets(
    owners: Map<u64, (u32, String)>,
    pid: u32,
    name: String,
    targets: Seq<Seq<char>>,
) -> Map<u64, (u32, String)>
    decreases targets.len(),
{
    if targets.len() == 0 {
        owners
    } else {
        let m = record_sockets(owners, pid, name, targets.drop_last());
        match socket_inode_spec(targets.last()) {
            Some(i) => m.insert(i as u64, (pid, name)),
            None => m,
        }
    }
}

pub open spec fn string_views(v: Seq<String>) -> Seq<Seq<char>> {
    v.map_values(|s: String| s@)
}

/// Records the sockets among the file-descriptor link targets of process
/// `pid` named `name`.
pub fn record_process_sockets(
    owners: &mut HashMap<u64, (u32, String)>,
    pid: u32,
    name: &String,
    link_targets: &Vec<String>,
)
    ensures
        final(owners)@ == record_sockets(old(owners)@, pid, *name, string_views(link_targets@)),
{
    let mut i: usize = 0;
    while i < link_targets.len()
        invariant
            i <= link_targets@.len(),
            owners@ == record_sockets(
                old(owners)@,
                pid,
                *name,
                string_views(link_targets@).take(i as int),
            ),
        decreases link_targets.len() - i,
    {
        let ghost t = string_views(link_targets@).take(i + 1);
        assert(t.drop_last() == string_views(link_targets@).take(i as int));
        assert(t.last() == link_targets@[i as int]@);
        match socket_inode(link_targets[i].as_str()) {
            Some(inode) => {
                owners.insert(inode, (pid, name.clone()));
            },
            None => {},
        }
        i = i + 1;
    }
    assert(string_views(link_targets@).take(link_targets@.len() as int) == string_views(
        link_targets@,
    ));
}

/// The owners map with each process name taken by its characters.
pub open spec fn owner_views(m: Map<u64, (u32, String)>) -> Map<u64, (u32, Seq<char>)> {
    m.map_values(|v: (u32, String)| (v.0, v.1@))
}

/// `record_sockets` over names taken by their characters.
pub open spec fn record_socket_views(
    owners: Map<u64, (u32, Seq<char>)>,
    pid: u32,
    name: Seq<char>,
    targets: Seq<Seq<char>>,
) -> Map<u64, (u32, Seq<char>)>
    decreases targets.len(),
{
    if targets.len() == 0 {
        owners
    } else {
        let m = record_socket_views(owners, pid, name, targets.drop_last());
        match socket_inode_spec(targets.last()) {
            Some(i) => m.insert(i as u64, (pid, name)),
            None => m,
        }
    }
}

proof fn lemma_record_views(m: Map<u64, (u32, String)>, pid: u32, name: String, ts: Seq<Seq<char>>)
    ensures
        owner_views(record_sockets(m, pid, name, ts)) == record_socket_views(
            owner_views(m),
            pid,
            name@,
            ts,
        ),
    decreases ts.len(),
{
    if ts.len() > 0 {
        lemma_record_views(m, pid, name, ts.drop_last());
        let m2 = record_sockets(m, pid, name, ts.drop_last());
        match socket_inode_spec(ts.last()) {
            Some(i) => {
                assert(owner_views(m2.insert(i as u64, (pid, name))) =~= owner_views(m2).insert(
                    i as u64,
                    (pid, name@),
                ));
            },
            None => {},
        }
    }
}

/// The name of a process from its `comm` file text (`"Unknown"` when it
/// could not be read).
pub open spec fn comm_name(comm: Option<String>) -> Seq<char> {
    match comm {
        Some(c) => text::trim(c@),
        None => "Unknown"@,
    }
}

/// Socket inode to owning process over the `/proc` entries, in order: each
/// numeric entry whose descriptors could be read records the sockets among
/// its link targets under its pid and `comm` name, later entries overriding
/// earlier ones.
pub open spec fn socket_owners_spec(es: Seq<ProcEntry>) -> Map<u64, (u32, Seq<char>)>
    decreases es.len(),
{
    if es.len() == 0 {
        Map::empty()
    } else {
        let m = socket_owners_spec(es.drop_last());
        let e = es.last();
        match num::parse_uint_spec(e.name@, 10, u32_max()) {
            Some(p) => match e.fd_targets {
                Some(ts) => record_socket_views(m, p as u32, comm_name(e.comm), string_views(ts@)),
                None => m,
            },
            None => m,
        }
    }
}

/// Maps socket inodes to their owning processes from the `/proc` entries
/// (with raw descriptor link targets).
pub fn socket_owners_of(entries: &Vec<ProcEntry>) -> (r: HashMap<u64, (u32, String)>)
    ensures
        owner_views(r@) == socket_owners_spec(entries@),
{
    let mut owners: HashMap<u64, (u32, String)> = HashMap::new();
    proof {
        assert(owner_views(owners@) =~= Map::<u64, (u32, Seq<char>)>::empty());
    }
    let mut i: usize = 0;
    while i < entries.len()
        invariant
            i <= entries@.len(),
            owner_views(owners@) == socket_owners_spec(entries@.take(i as int)),
        decreases entries.len() - i,
    {
        let e = &entries[i];
        proof {
            assert(entries@.take(i + 1).drop_last() == entries@.take(i as int));
            assert(entries@.take(i + 1).last() == entries@[i as int]);
        }
        match pid_of_entry(e.name.as_str()) {
            Some(pid) => {
                match &e.fd_targets {
                    Some(ts) => {
                        let comm = match &e.comm {
                            Some(c) => Some(c.as_str()),
                            None => None,
                        };
                        let pname = process_name_of(comm);
                        assert(pname@ == comm_name(e.comm));
                        let ghost before = owners@;
                        record_process_sockets(&mut owners, pid, &pname, ts);
                        proof {
                            lemma_record_views(before, pid, pname, string_views(ts@));
                        }
                    },
                    None => {},
                }
            },
            None => {},
        }
        i = i + 1;
    }
    assert(entries@.take(entries@.len() as int) == entries@);
    owners
}

/// The process id named by a `/proc` entry, if the name is a number.
pub fn pid_of_entry(name: &str) -> (r: Option<u32>)
    ensures
        match r {
            Some(p) => num::parse_uint_spec(name@, 10, u32_max()) == Some(p as nat),
            None => num::parse_uint_spec(name@, 10, u32_max()) is None,
        },
{
    let v = chars_of(name);
    match parse_uint(&v, 10, 0xffff_ffff) {
        Some(p) => Some(p as u32),
        None => None,
    }
}

/// Name of a process from the text of its `comm` file: the trimmed text, or
/// `"Unknown"` when the file could not be read.
pub fn process_name_of(comm: Option<&str>) -> (r: String)
    ensures
        r@ == match comm {
            Some(c) => text::trim(c@),
            None => "Unknown"@,
        },
{
    match comm {
        Some(c) => {
            let v = chars_of(c);
            string_of(&text::trim_chars(&v))
        },
        None => String::from_str("Unknown"),
    }
}

} // verus!
