//! Integer parts of the system statistics: disk sectors from
//! `/proc/diskstats`, GPU memory from `nvidia-smi` and sysfs, network and
//! CPU totals. Counters wrap around at 2^64.
use std::collections::HashMap;
use vstd::prelude::*;

use crate::command::CommandOutcome;
use crate::netconn::u32_max;
use crate::num;
use crate::text;
use crate::text::{chars_of, string_of};

verus! {

broadcast use vstd::seq_lib::group_seq_properties, vstd::std_specs::hash::group_hash_axioms;

pub open spec fn two_pow_64() -> nat {
    0x1_0000_0000_0000_0000
}

/// Addition that wraps around at 2^64.
pub open spec fn wrap_add(a: nat, b: nat) -> nat {
    if a + b > u64::MAX {
        (a + b - two_pow_64()) as nat
    } else {
        a + b
    }
}

/// Multiplication that wraps around at 2^64.
pub open spec fn wrap_mul(a: nat, b: nat) -> nat {
    (a * b) % two_pow_64()
}

pub open spec fn u64_max_nat() -> nat {
    u64::MAX as nat
}

// ---------------------------------------------------------------------------
// Disks
// ---------------------------------------------------------------------------

/// A whole disk rather than a partition or a virtual device: `sd` followed by
/// one letter (three bytes), or an `nvme` name with an `n` and without `p`.
pub open spec fn is_physical_disk(dev: Seq<char>) -> bool {
    (text::has_prefix(dev, "sd"@) && text::utf8_len(dev) == 3) || (text::has_prefix(dev, "nvme"@)
        && text::has_sub(dev, "n"@) && !text::has_sub(dev, "p"@))
}

/// The sectors read and written that one line of `/proc/diskstats` adds: a
/// line with at least 14 words whose third word names a whole disk and
/// whose sixth and tenth words read as numbers.
pub open spec fn diskstats_line(line: Seq<char>) -> Option<(nat, nat)> {
    let w = text::words(line);
    if w.len() >= 14 && is_physical_disk(w[2]) {
        match (
            num::parse_uint_spec(w[5], 10, u64_max_nat()),
            num::parse_uint_spec(w[9], 10, u64_max_nat()),
        ) {
            (Some(r), Some(wr)) => Some((r, wr)),
            _ => None,
        }
    } else {
        None
    }
}

/// Sectors read and written by the whole disks of the lines `ls`.
pub open spec fn diskstats_sectors(ls: Seq<Seq<char>>) -> (nat, nat)
    decreases ls.len(),
{
    if ls.len() == 0 {
        (0, 0)
    } else {
        let (r, w) = diskstats_sectors(ls.drop_last());
        match diskstats_line(ls.last()) {
            Some((a, b)) => (wrap_add(r, a), wrap_add(w, b)),
            None => (r, w),
        }
    }
}

fn parse_u64_chars(v: &Vec<char>) -> (r: Option<u64>)
    ensures
        match r {
            Some(x) => num::parse_uint_spec(v@, 10, u64_max_nat()) == Some(x as nat),
            None => num::parse_uint_spec(v@, 10, u64_max_nat()) is None,
        },
{
    num::parse_uint(v, 10, u64::MAX)
}

fn is_physical_disk_exec(dev: &Vec<char>) -> (r: bool)
    ensures
        r == is_physical_disk(dev@),
{
    let s = string_of(dev);
    let sd = chars_of("sd");
    let nvme = chars_of("nvme");
    let n = chars_of("n");
    let p = chars_of("p");
    (text::starts_with(dev, &sd) && text::utf8_len_upto(s.as_str(), 3) == 3) || (
    text::starts_with(dev, &nvme) && text::contains(dev, &n) && !text::contains(dev, &p))
}

/// Bytes read and written by the whole disks, from the text of
/// `/proc/diskstats`: the sectors of the sixth and tenth columns, summed over
/// the lines of whole disks, times 512.
pub fn read_proc_diskstats(content: &str) -> (r: (u64, u64))
    ensures
        r.0 == wrap_mul(diskstats_sectors(text::lines(content@)).0, 512),
        r.1 == wrap_mul(diskstats_sectors(text::lines(content@)).1, 512),
{
    let v = chars_of(content);
    let ls = text::split_lines(&v);
    let ghost lv = text::views(ls@);
    let mut read: u64 = 0;
    let mut written: u64 = 0;
    let mut i: usize = 0;
    while i < ls.len()
        invariant
            i <= ls@.len(),
            lv == text::views(ls@),
            diskstats_sectors(lv.take(i as int)) == (read as nat, written as nat),
        decreases ls.len() - i,
    {
        let ghost t = lv.take(i + 1);
        assert(t.drop_last() == lv.take(i as int));
        assert(t.last() == ls@[i as int]@);
        let ws = text::split_ws(&ls[i]);
        assert(text::views(ws@).len() == ws@.len());
        if ws.len() >= 14 {
            assert(text::views(ws@)[2] == ws@[2]@);
            assert(text::views(ws@)[5] == ws@[5]@);
            assert(text::views(ws@)[9] == ws@[9]@);
            if is_physical_disk_exec(&ws[2]) {
                match (parse_u64_chars(&ws[5]), parse_u64_chars(&ws[9])) {
                    (Some(r), Some(w)) => {
                        read = read.wrapping_add(r);
                        written = written.wrapping_add(w);
                    },
                    _ => {},
                }
            }
        }
        i = i + 1;
    }
    assert(lv.take(lv.len() as int) == lv);
    (read.wrapping_mul(512), written.wrapping_mul(512))
}

/// What the disk list shows of one mounted file system.
pub struct PartitionInfo {
    pub name: String,
    pub mount_point: String,
    pub total_space: u64,
    pub available_space: u64,
    pub file_system: String,
}

/// Bytes per second from two readings of a byte counter: the growth since
/// the previous reading (zero if it went down), counted only when there was
/// a previous non-zero reading.
pub fn counter_delta(previous: u64, current: u64) -> (r: Option<u64>)
    ensures
        previous == 0 ==> r is None,
        previous > 0 ==> r == Some(if current >= previous {
            (current - previous) as u64
        } else {
            0u64
        }),
{
    if previous == 0 {
        None
    } else {
        Some(current.saturating_sub(previous))
    }
}

/// Bytes read and written since the previous readings of the whole-disk
/// counters: the growth of each (zero if it went down), counted only when
/// there was a previous non-zero read counter; `None` on the first reading.
pub fn disk_deltas(prev_read: u64, prev_write: u64, read: u64, written: u64) -> (r: Option<(u64, u64)>)
    ensures
        prev_read == 0 ==> r is None,
        prev_read > 0 ==> r == Some(
            (
                if read >= prev_read {
                    (read - prev_read) as u64
                } else {
                    0u64
                },
                if written >= prev_write {
                    (written - prev_write) as u64
                } else {
                    0u64
                },
            ),
        ),
{
    match counter_delta(prev_read, read) {
        Some(dr) => Some((dr, written.saturating_sub(prev_write))),
        None => None,
    }
}

// ---------------------------------------------------------------------------
// GPU
// ---------------------------------------------------------------------------

/// Bytes of `mb` mebibytes, wrapping at 2^64.
pub open spec fn mib_bytes(mb: nat) -> nat {
    wrap_mul(wrap_mul(mb, 1024), 1024)
}

fn mib_to_bytes(mb: u64) -> (r: u64)
    ensures
        r == mib_bytes(mb as nat),
{
    mb.wrapping_mul(1024).wrapping_mul(1024)
}

/// Memory used and total and the model name reported by `nvidia-smi
/// --query-gpu=utilization.gpu,memory.used,memory.total,name
/// --format=csv,noheader,nounits`.
pub struct NvidiaMemory {
    pub used_bytes: u64,
    pub total_bytes: u64,
    pub model: String,
}

/// A number read from trimmed text, zero when it does not read as one.
pub open spec fn number_or_zero(s: Seq<char>) -> nat {
    match num::parse_uint_spec(text::trim(s), 10, u64_max_nat()) {
        Some(x) => x,
        None => 0,
    }
}

fn number_or_zero_exec(v: &Vec<char>) -> (r: u64)
    ensures
        r == number_or_zero(v@),
{
    let t = text::trim_chars(v);
    match parse_u64_chars(&t) {
        Some(x) => x,
        None => 0,
    }
}

/// Reads a byte count written by the kernel in a sysfs file: the trimmed
/// text as a number, zero when it is not one.
pub fn parse_u64_or_zero(text_value: &str) -> (r: u64)
    ensures
        r == number_or_zero(text_value@),
{
    number_or_zero_exec(&chars_of(text_value))
}

/// Reads the output of the `nvidia-smi` GPU query: split at commas, with at
/// least four fields, the second and third (trimmed) are the memory used and
/// total in MiB (zero when not a number) and the fourth, trimmed, the model.
pub fn parse_nvidia_memory(output: &str) -> (r: Option<NvidiaMemory>)
    ensures
        text::split(output@, ',').len() < 4 ==> r is None,
        text::split(output@, ',').len() >= 4 ==> (r matches Some(m) && m.used_bytes == mib_bytes(
            number_or_zero(text::split(output@, ',')[1]),
        ) && m.total_bytes == mib_bytes(number_or_zero(text::split(output@, ',')[2]))
            && m.model@ == text::trim(text::split(output@, ',')[3])),
{
    let v = chars_of(output);
    let parts = text::split_char(&v, ',');
    assert(text::views(parts@).len() == parts@.len());
    if parts.len() < 4 {
        return None;
    }
    assert(text::views(parts@)[1] == parts@[1]@);
    assert(text::views(parts@)[2] == parts@[2]@);
    assert(text::views(parts@)[3] == parts@[3]@);
    let used = number_or_zero_exec(&parts[1]);
    let total = number_or_zero_exec(&parts[2]);
    let model = string_of(&text::trim_chars(&parts[3]));
    Some(NvidiaMemory { used_bytes: mib_to_bytes(used), total_bytes: mib_to_bytes(total), model })
}

/// The (pid, bytes) that one line of the compute-apps query gives: a line
/// with at least two comma-separated fields whose first two, trimmed, read
/// as a pid and a number of MiB.
pub open spec fn compute_app_line(line: Seq<char>) -> Option<(u32, nat)> {
    let parts = text::split(line, ',');
    if parts.len() >= 2 {
        match (
            num::parse_uint_spec(text::trim(parts[0]), 10, u32_max()),
            num::parse_uint_spec(text::trim(parts[1]), 10, u64_max_nat()),
        ) {
            (Some(p), Some(m)) => Some((p as u32, mib_bytes(m))),
            _ => None,
        }
    } else {
        None
    }
}

/// Video memory per process from the lines `ls`; a later line for the same
/// pid replaces an earlier one.
pub open spec fn compute_apps_map(ls: Seq<Seq<char>>) -> Map<u32, u64>
    decreases ls.len(),
{
    if ls.len() == 0 {
        Map::empty()
    } else {
        let m = compute_apps_map(ls.drop_last());
        match compute_app_line(ls.last()) {
            Some((p, b)) => m.insert(p, b as u64),
            None => m,
        }
    }
}

/// Video memory per process from the output of `nvidia-smi
/// --query-compute-apps=pid,used_memory --format=csv,noheader,nounits`.
pub fn parse_compute_apps(output: &str) -> (r: HashMap<u32, u64>)
    ensures
        r@ == compute_apps_map(text::lines(output@)),
{
    let v = chars_of(output);
    let ls = text::split_lines(&v);
    let ghost lv = text::views(ls@);
    let mut m: HashMap<u32, u64> = HashMap::new();
    let mut i: usize = 0;
    while i < ls.len()
        invariant
            i <= ls@.len(),
            lv == text::views(ls@),
            m@ == compute_apps_map(lv.take(i as int)),
        decreases ls.len() - i,
    {
        let ghost t = lv.take(i + 1);
        assert(t.drop_last() == lv.take(i as int));
        assert(t.last() == ls@[i as int]@);
        let parts = text::split_char(&ls[i], ',');
        assert(text::views(parts@).len() == parts@.len());
        if parts.len() >= 2 {
            assert(text::views(parts@)[0] == parts@[0]@);
            assert(text::views(parts@)[1] == parts@[1]@);
            let a = text::trim_chars(&parts[0]);
            let b = text::trim_chars(&parts[1]);
            match (num::parse_uint(&a, 10, 0xffff_ffff), parse_u64_chars(&b)) {
                (Some(p), Some(mb)) => {
                    m.insert(p as u32, mib_to_bytes(mb));
                },
                _ => {},
            }
        }
        i = i + 1;
    }
    assert(lv.take(lv.len() as int) == lv);
    m
}

/// Which GPU the statistics describe and how they are read.
pub struct GpuIdentity {
    pub has_gpu: bool,
    pub is_nvidia: bool,
    pub is_amd: bool,
    pub brand: String,
    pub model: String,
}

pub open spec fn identity_fits(
    r: GpuIdentity,
    has_nvidia_smi: bool,
    amd_busy_file: bool,
    vendor: Option<Seq<char>>,
) -> bool {
    if has_nvidia_smi {
        r.has_gpu && r.is_nvidia && !r.is_amd && r.brand@ == "NVIDIA"@ && r.model@
            == "No Active GPU"@
    } else if amd_busy_file {
        r.has_gpu && !r.is_nvidia && r.is_amd && match vendor {
            None => r.brand@ == "AMD"@ && r.model@ == "AMD/Intel Graphics"@,
            Some(v) => if text::has_sub(text::trim(v), "0x1002"@) {
                r.brand@ == "AMD"@ && r.model@ == "AMD Radeon Graphics"@
            } else if text::has_sub(text::trim(v), "0x8086"@) {
                r.brand@ == "Intel"@ && r.model@ == "Intel HD Graphics"@
            } else {
                r.brand@ == "AMD"@ && r.model@ == "No Active GPU"@
            },
        }
    } else {
        !r.has_gpu && !r.is_nvidia && !r.is_amd && r.brand@ == "Unknown"@ && r.model@
            == "No Active GPU"@
    }
}

/// Identifies the GPU: NVIDIA when `nvidia-smi` is installed, else AMD or
/// Intel when the sysfs busy-percent file of card 0 exists, named by the
/// PCI vendor id read from sysfs (`None` when it could not be read); else
/// none.
pub fn detect_gpu(has_nvidia_smi: bool, amd_busy_file: bool, vendor: Option<&str>) -> (r: GpuIdentity)
    ensures
        identity_fits(r, has_nvidia_smi, amd_busy_file, text::opt_str(vendor)),
{
    if has_nvidia_smi {
        return GpuIdentity {
            has_gpu: true,
            is_nvidia: true,
            is_amd: false,
            brand: String::from_str("NVIDIA"),
            model: String::from_str("No Active GPU"),
        };
    }
    if !amd_busy_file {
        return GpuIdentity {
            has_gpu: false,
            is_nvidia: false,
            is_amd: false,
            brand: String::from_str("Unknown"),
            model: String::from_str("No Active GPU"),
        };
    }
    let (brand, model) = match vendor {
        None => (String::from_str("AMD"), String::from_str("AMD/Intel Graphics")),
        Some(v) => {
            let t = text::trim_chars(&chars_of(v));
            if text::contains(&t, &chars_of("0x1002")) {
                (String::from_str("AMD"), String::from_str("AMD Radeon Graphics"))
            } else if text::contains(&t, &chars_of("0x8086")) {
                (String::from_str("Intel"), String::from_str("Intel HD Graphics"))
            } else {
                (String::from_str("AMD"), String::from_str("No Active GPU"))
            }
        },
    };
    GpuIdentity { has_gpu: true, is_nvidia: false, is_amd: true, brand, model }
}

// ---------------------------------------------------------------------------
// Network and CPU
// ---------------------------------------------------------------------------

/// Traffic of one network interface.
pub struct NetworkInterfaceInfo {
    pub name: String,
    /// Bytes received since the previous refresh.
    pub rx_bytes_sec: u64,
    /// Bytes sent since the previous refresh.
    pub tx_bytes_sec: u64,
    /// Bytes received in total.
    pub total_rx: u64,
    /// Bytes sent in total.
    pub total_tx: u64,
}

/// Traffic summed over all interfaces.
pub struct NetworkTotals {
    pub rx_bytes_sec: u64,
    pub tx_bytes_sec: u64,
    pub total_rx_bytes: u64,
    pub total_tx_bytes: u64,
}

/// Sum, wrapping at 2^64, of one counter over the interfaces.
pub open spec fn iface_sum(v: Seq<NetworkInterfaceInfo>, f: spec_fn(NetworkInterfaceInfo) -> u64) -> nat
    decreases v.len(),
{
    if v.len() == 0 {
        0
    } else {
        wrap_add(iface_sum(v.drop_last(), f), f(v.last()) as nat)
    }
}

pub open spec fn rx_of() -> spec_fn(NetworkInterfaceInfo) -> u64 {
    |i: NetworkInterfaceInfo| i.rx_bytes_sec
}

pub open spec fn tx_of() -> spec_fn(NetworkInterfaceInfo) -> u64 {
    |i: NetworkInterfaceInfo| i.tx_bytes_sec
}

pub open spec fn total_rx_of() -> spec_fn(NetworkInterfaceInfo) -> u64 {
    |i: NetworkInterfaceInfo| i.total_rx
}

pub open spec fn total_tx_of() -> spec_fn(NetworkInterfaceInfo) -> u64 {
    |i: NetworkInterfaceInfo| i.total_tx
}

/// The four counters summed over the interfaces.
pub fn network_totals(ifaces: &Vec<NetworkInterfaceInfo>) -> (r: NetworkTotals)
    ensures
        r.rx_bytes_sec == iface_sum(ifaces@, rx_of()),
        r.tx_bytes_sec == iface_sum(ifaces@, tx_of()),
        r.total_rx_bytes == iface_sum(ifaces@, total_rx_of()),
        r.total_tx_bytes == iface_sum(ifaces@, total_tx_of()),
{
    let mut r = NetworkTotals { rx_bytes_sec: 0, tx_bytes_sec: 0, total_rx_bytes: 0, total_tx_bytes: 0 };
    let mut i: usize = 0;
    while i < ifaces.len()
        invariant
            i <= ifaces@.len(),
            r.rx_bytes_sec == iface_sum(ifaces@.take(i as int), rx_of()),
            r.tx_bytes_sec == iface_sum(ifaces@.take(i as int), tx_of()),
            r.total_rx_bytes == iface_sum(ifaces@.take(i as int), total_rx_of()),
            r.total_tx_bytes == iface_sum(ifaces@.take(i as int), total_tx_of()),
        decreases ifaces.len() - i,
    {
        let f = &ifaces[i];
        let ghost t = ifaces@.take(i + 1);
        assert(t.drop_last() == ifaces@.take(i as int));
        assert(t.last() == ifaces@[i as int]);
        r.rx_bytes_sec = r.rx_bytes_sec.wrapping_add(f.rx_bytes_sec);
        r.tx_bytes_sec = r.tx_bytes_sec.wrapping_add(f.tx_bytes_sec);
        r.total_rx_bytes = r.total_rx_bytes.wrapping_add(f.total_rx);
        r.total_tx_bytes = r.total_tx_bytes.wrapping_add(f.total_tx);
        i = i + 1;
    }
    assert(ifaces@.take(ifaces@.len() as int) == ifaces@);
    r
}

/// Sum, wrapping at 2^64, of the values.
pub open spec fn wrapped_sum(v: Seq<u64>) -> nat
    decreases v.len(),
{
    if v.len() == 0 {
        0
    } else {
        wrap_add(wrapped_sum(v.drop_last()), v.last() as nat)
    }
}

/// The average clock of the cores in MHz: the sum of their frequencies
/// divided by their number, zero without cores.
pub fn average_frequency(freqs: &Vec<u64>) -> (r: u64)
    ensures
        freqs@.len() == 0 ==> r == 0,
        freqs@.len() > 0 ==> r == wrapped_sum(freqs@) / (freqs@.len() as nat),
{
    if freqs.len() == 0 {
        return 0;
    }
    let mut total: u64 = 0;
    let mut i: usize = 0;
    while i < freqs.len()
        invariant
            i <= freqs@.len(),
            total == wrapped_sum(freqs@.take(i as int)),
        decreases freqs.len() - i,
    {
        let ghost t = freqs@.take(i + 1);
        assert(t.drop_last() == freqs@.take(i as int));
        total = total.wrapping_add(freqs[i]);
        i = i + 1;
    }
    assert(freqs@.take(freqs@.len() as int) == freqs@);
    total / (freqs.len() as u64)
}

} // verus!
