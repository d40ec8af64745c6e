//! Process records and the orderings, filters and tree layout of the
//! process table.
use std::collections::HashSet;
use vstd::prelude::*;

use crate::num;
use crate::text;
use crate::text::{chars_of, to_lower};

verus! {

broadcast use vstd::seq_lib::group_seq_properties, vstd::std_specs::hash::group_hash_axioms;

/// One process as listed in the process table.
pub struct ProcessInfo {
    pub pid: u32,
    pub parent_pid: Option<u32>,
    pub name: String,
    /// CPU usage in percent, as the bit pattern of an `f32` (`f32::to_bits`).
    pub cpu_usage_bits: u32,
    pub memory_bytes: u64,
    pub status: String,
    pub username: String,
    pub exe_path: String,
    pub icon_path: Option<String>,
    pub gpu_memory_bytes: u64,
}

impl ProcessInfo {
    /// A copy of this record, field by field.
    pub fn copied(&self) -> (r: ProcessInfo)
        ensures
            r == *self,
    {
        ProcessInfo {
            pid: self.pid,
            parent_pid: self.parent_pid,
            name: self.name.clone(),
            cpu_usage_bits: self.cpu_usage_bits,
            memory_bytes: self.memory_bytes,
            status: self.status.clone(),
            username: self.username.clone(),
            exe_path: self.exe_path.clone(),
            icon_path: match &self.icon_path {
                Some(p) => Some(p.clone()),
                None => None,
            },
            gpu_memory_bytes: self.gpu_memory_bytes,
        }
    }
}

/// The user shown for a process: the name of its owner when the user list
/// knows it, else the owner's id as text, and `root` when the process has no
/// owner id.
pub fn owner_name(uid_text: Option<&str>, known_name: Option<&str>) -> (r: String)
    ensures
        r@ == match uid_text {
            None => "root"@,
            Some(u) => match known_name {
                Some(n) => n@,
                None => u@,
            },
        },
{
    match uid_text {
        None => String::from_str("root"),
        Some(u) => match known_name {
            Some(n) => String::from_str(n),
            None => String::from_str(u),
        },
    }
}

/// Column by which the process table is ordered.
#[derive(Clone, Copy, PartialEq, Eq, Structural, Debug)]
pub enum SortColumn {
    Name,
    Pid,
    Cpu,
    Memory,
    GpuMemory,
}

/// Direction of the ordering.
#[derive(Clone, Copy, PartialEq, Eq, Structural, Debug)]
pub enum SortDirection {
    Ascending,
    Descending,
}

// ---------------------------------------------------------------------------
// CPU usage order
// ---------------------------------------------------------------------------

/// An integer that orders `f32` values (given by their bits) as `partial_cmp`
/// does when neither is a NaN: negative values below zero, both zeros equal,
/// positive values above, by magnitude.
pub open spec fn cpu_key(bits: u32) -> nat {
    if bits % 0x8000_0000 == 0 {
        0x8000_0000
    } else if bits >= 0x8000_0000 {
        (0xffff_ffff - bits) as nat
    } else {
        (bits + 0x8000_0000) as nat
    }
}

/// `cpu_key` orders `f32` values, given by their bits, as `f32` comparison
/// does for numbers: both zeros are equal; positive values (sign bit clear)
/// grow with their bits; negative values (sign bit set) shrink as their bits
/// grow; and every negative value is below zero, which is below every
/// positive value. (Bits up to 0x7f80_0000 are the non-negative numbers up
/// to infinity; 0x8000_0000 up to 0xff80_0000 the non-positive ones.)
pub proof fn lemma_cpu_key_float_order(a: u32, b: u32)
    ensures
        (a == 0 || a == 0x8000_0000) && (b == 0 || b == 0x8000_0000) ==> cpu_key(a) == cpu_key(b),
        0 < a < b <= 0x7f80_0000 ==> cpu_key(a) < cpu_key(b),
        0x8000_0000 < a < b <= 0xff80_0000 ==> cpu_key(b) < cpu_key(a),
        0x8000_0000 < a <= 0xff80_0000 ==> cpu_key(a) < cpu_key(0),
        0 < b <= 0x7f80_0000 ==> cpu_key(0) < cpu_key(b),
{
}

/// The order key of a CPU usage given by its `f32` bits.
pub fn cpu_order_key(bits: u32) -> (r: u32)
    ensures
        r == cpu_key(bits),
{
    if bits % 0x8000_0000 == 0 {
        0x8000_0000
    } else if bits >= 0x8000_0000 {
        0xffff_ffff - bits
    } else {
        bits + 0x8000_0000
    }
}

// ---------------------------------------------------------------------------
// Ordering
// ---------------------------------------------------------------------------

/// Lexicographic order by character code, which is the order of `String`
/// comparison (UTF-8 keeps the order of code points).
pub open spec fn lex_lt(a: Seq<char>, b: Seq<char>) -> bool
    decreases a.len(),
{
    if b.len() == 0 {
        false
    } else if a.len() == 0 {
        true
    } else if a[0] != b[0] {
        (a[0] as u32) < (b[0] as u32)
    } else {
        lex_lt(a.drop_first(), b.drop_first())
    }
}

/// Names are compared character by character, by code point, as strings
/// are: when `a` and `b` agree on their first `k` characters, a proper
/// prefix comes first, a text that has ended comes after nothing, and
/// otherwise the character at `k` decides.
pub proof fn lemma_lex_lt_first_difference(a: Seq<char>, b: Seq<char>, k: int)
    requires
        0 <= k <= a.len(),
        k <= b.len(),
        a.take(k) == b.take(k),
    ensures
        k == b.len() ==> !lex_lt(a, b),
        k == a.len() && k < b.len() ==> lex_lt(a, b),
        k < a.len() && k < b.len() && (a[k] as u32) < (b[k] as u32) ==> lex_lt(a, b),
        k < a.len() && k < b.len() && (a[k] as u32) > (b[k] as u32) ==> !lex_lt(a, b),
    decreases k,
{
    if k > 0 {
        assert(a[0] == a.take(k)[0] && b[0] == b.take(k)[0]);
        let a1 = a.drop_first();
        let b1 = b.drop_first();
        assert forall|i: int| 0 <= i < k - 1 implies #[trigger] a1.take(k - 1)[i] == b1.take(k - 1)[i] by {
            assert(a1.take(k - 1)[i] == a1[i] && a1[i] == a[i + 1] && a[i + 1] == a.take(k)[i + 1]);
            assert(b1.take(k - 1)[i] == b1[i] && b1[i] == b[i + 1] && b[i + 1] == b.take(k)[i + 1]);
            assert(a.take(k)[i + 1] == b.take(k)[i + 1]);
        }
        assert(a1.take(k - 1) =~= b1.take(k - 1));
        lemma_lex_lt_first_difference(a1, b1, k - 1);
        if k < a.len() {
            assert(a1[k - 1] == a[k]);
        }
        if k < b.len() {
            assert(b1[k - 1] == b[k]);
        }
    } else {
        if a.len() > 0 && b.len() > 0 && a[0] == b[0] {
            assert((a[0] as u32) == (b[0] as u32));
        }
    }
}

/// `a` comes strictly before `b` in ascending order of `col`.
pub open spec fn key_lt(a: ProcessInfo, b: ProcessInfo, col: SortColumn) -> bool {
    match col {
        SortColumn::Name => lex_lt(text::lower_text(a.name@), text::lower_text(b.name@)),
        SortColumn::Pid => a.pid < b.pid,
        SortColumn::Cpu => cpu_key(a.cpu_usage_bits) < cpu_key(b.cpu_usage_bits),
        SortColumn::Memory => a.memory_bytes < b.memory_bytes,
        SortColumn::GpuMemory => a.gpu_memory_bytes < b.gpu_memory_bytes,
    }
}

/// `a` must come strictly before `b` when ordering by `col` in direction `dir`.
pub open spec fn precedes(a: ProcessInfo, b: ProcessInfo, col: SortColumn, dir: SortDirection) -> bool {
    match dir {
        SortDirection::Ascending => key_lt(a, b, col),
        SortDirection::Descending => key_lt(b, a, col),
    }
}

fn lex_less(a: &Vec<char>, b: &Vec<char>) -> (r: bool)
    ensures
        r == lex_lt(a@, b@),
{
    let mut i: usize = 0;
    loop
        invariant
            i <= a@.len(),
            i <= b@.len(),
            lex_lt(a@, b@) == lex_lt(a@.skip(i as int), b@.skip(i as int)),
        decreases a@.len() - i,
    {
        if i == b.len() {
            assert(b@.skip(i as int).len() == 0);
            return false;
        }
        if i == a.len() {
            assert(a@.skip(i as int).len() == 0);
            return true;
        }
        assert(a@.skip(i as int)[0] == a@[i as int]);
        assert(b@.skip(i as int)[0] == b@[i as int]);
        if a[i] != b[i] {
            return (a[i] as u32) < (b[i] as u32);
        }
        assert(a@.skip(i as int).drop_first() == a@.skip(i + 1));
        assert(b@.skip(i as int).drop_first() == b@.skip(i + 1));
        i = i + 1;
    }
}

/// Lowercase names of the processes, the keys of the name ordering.
pub struct SortKeys {
    pub names: Vec<Vec<char>>,
}

impl SortKeys {
    pub open spec fn fits(&self, ps: Seq<ProcessInfo>) -> bool {
        &&& self.names@.len() == ps.len()
        &&& forall|i: int| 0 <= i < ps.len() ==> #[trigger] self.names@[i]@ == text::lower_text(
            ps[i].name@,
        )
    }

    pub fn new(ps: &Vec<ProcessInfo>) -> (r: SortKeys)
        ensures
            r.fits(ps@),
    {
        let mut names: Vec<Vec<char>> = Vec::new();
        let mut i: usize = 0;
        while i < ps.len()
            invariant
                i <= ps@.len(),
                names@.len() == i,
                forall|k: int| 0 <= k < i ==> #[trigger] names@[k]@ == text::lower_text(
                    ps@[k].name@,
                ),
            decreases ps.len() - i,
        {
            let l = to_lower(ps[i].name.as_str());
            names.push(chars_of(l.as_str()));
            i = i + 1;
        }
        SortKeys { names }
    }
}

fn precedes_at(
    ps: &Vec<ProcessInfo>,
    keys: &SortKeys,
    i: usize,
    j: usize,
    col: SortColumn,
    dir: SortDirection,
) -> (r: bool)
    requires
        keys.fits(ps@),
        i < ps@.len(),
        j < ps@.len(),
    ensures
        r == precedes(ps@[i as int], ps@[j as int], col, dir),
{
    let (a, b) = match dir {
        SortDirection::Ascending => (i, j),
        SortDirection::Descending => (j, i),
    };
    assert(keys.names@[a as int]@ == text::lower_text(ps@[a as int].name@));
    assert(keys.names@[b as int]@ == text::lower_text(ps@[b as int].name@));
    match col {
        SortColumn::Name => lex_less(&keys.names[a], &keys.names[b]),
        SortColumn::Pid => ps[a].pid < ps[b].pid,
        SortColumn::Cpu => cpu_order_key(ps[a].cpu_usage_bits) < cpu_order_key(
            ps[b].cpu_usage_bits,
        ),
        SortColumn::Memory => ps[a].memory_bytes < ps[b].memory_bytes,
        SortColumn::GpuMemory => ps[a].gpu_memory_bytes < ps[b].gpu_memory_bytes,
    }
}

// ---------------------------------------------------------------------------
// Stable sorting of index sequences
// ---------------------------------------------------------------------------

/// Position at which `x` is inserted into `sorted`: before the first element
/// that `x` precedes, after all others.
pub open spec fn ins_pos(
    ps: Seq<ProcessInfo>,
    sorted: Seq<usize>,
    x: usize,
    col: SortColumn,
    dir: SortDirection,
) -> nat
    decreases sorted.len(),
{
    if sorted.len() == 0 {
        0
    } else if precedes(ps[x as int], ps[sorted[0] as int], col, dir) {
        0
    } else {
        1 + ins_pos(ps, sorted.drop_first(), x, col, dir)
    }
}

/// The indices `idxs` in the order of a stable sort by `col` and `dir`: an
/// element goes after every earlier element that it does not precede.
pub open spec fn sort_idx(
    ps: Seq<ProcessInfo>,
    idxs: Seq<usize>,
    col: SortColumn,
    dir: SortDirection,
) -> Seq<usize>
    decreases idxs.len(),
{
    if idxs.len() == 0 {
        seq![]
    } else {
        let s = sort_idx(ps, idxs.drop_last(), col, dir);
        s.insert(ins_pos(ps, s, idxs.last(), col, dir) as int, idxs.last())
    }
}

proof fn lemma_ins_pos(
    ps: Seq<ProcessInfo>,
    sorted: Seq<usize>,
    x: usize,
    col: SortColumn,
    dir: SortDirection,
    k: int,
)
    requires
        0 <= k <= sorted.len(),
        forall|j: int| 0 <= j < k ==> !precedes(ps[x as int], #[trigger] ps[sorted[j] as int], col, dir),
        k == sorted.len() || precedes(ps[x as int], ps[sorted[k] as int], col, dir),
    ensures
        ins_pos(ps, sorted, x, col, dir) == k,
    decreases k,
{
    if k > 0 {
        assert(!precedes(ps[x as int], ps[sorted[0] as int], col, dir));
        assert forall|j: int| 0 <= j < k - 1 implies !precedes(
            ps[x as int],
            #[trigger] ps[sorted.drop_first()[j] as int],
            col,
            dir,
        ) by {
            assert(sorted.drop_first()[j] == sorted[j + 1]);
        }
        if k < sorted.len() {
            assert(sorted.drop_first()[k - 1] == sorted[k]);
        }
        lemma_ins_pos(ps, sorted.drop_first(), x, col, dir, k - 1);
    }
}

proof fn lemma_sort_idx_len(ps: Seq<ProcessInfo>, idxs: Seq<usize>, col: SortColumn, dir: SortDirection)
    ensures
        sort_idx(ps, idxs, col, dir).len() == idxs.len(),
    decreases idxs.len(),
{
    if idxs.len() > 0 {
        let s = sort_idx(ps, idxs.drop_last(), col, dir);
        lemma_sort_idx_len(ps, idxs.drop_last(), col, dir);
        lemma_ins_pos_le(ps, s, idxs.last(), col, dir);
    }
}

proof fn lemma_ins_pos_le(
    ps: Seq<ProcessInfo>,
    sorted: Seq<usize>,
    x: usize,
    col: SortColumn,
    dir: SortDirection,
)
    ensures
        ins_pos(ps, sorted, x, col, dir) <= sorted.len(),
    decreases sorted.len(),
{
    if sorted.len() > 0 {
        lemma_ins_pos_le(ps, sorted.drop_first(), x, col, dir);
    }
}

/// Sorts the indices `idxs` (into `ps`) stably by `col` and `dir`.
pub fn sort_indices(
    ps: &Vec<ProcessInfo>,
    keys: &SortKeys,
    idxs: &Vec<usize>,
    col: SortColumn,
    dir: SortDirection,
) -> (r: Vec<usize>)
    requires
        keys.fits(ps@),
        forall|k: int| 0 <= k < idxs@.len() ==> #[trigger] idxs@[k] < ps@.len(),
    ensures
        r@ == sort_idx(ps@, idxs@, col, dir),
{
    let mut out: Vec<usize> = Vec::new();
    let mut k: usize = 0;
    while k < idxs.len()
        invariant
            k <= idxs@.len(),
            keys.fits(ps@),
            forall|m: int| 0 <= m < idxs@.len() ==> #[trigger] idxs@[m] < ps@.len(),
            out@ == sort_idx(ps@, idxs@.take(k as int), col, dir),
            out@.len() == k,
            forall|m: int| 0 <= m < out@.len() ==> #[trigger] out@[m] < ps@.len(),
        decreases idxs.len() - k,
    {
        let x = idxs[k];
        let mut p: usize = 0;
        while p < out.len() && !precedes_at(ps, keys, x, out[p], col, dir)
            invariant
                p <= out@.len(),
                keys.fits(ps@),
                x < ps@.len(),
                forall|m: int| 0 <= m < out@.len() ==> #[trigger] out@[m] < ps@.len(),
                forall|j: int|
                    0 <= j < p ==> !precedes(ps@[x as int], #[trigger] ps@[out@[j] as int], col, dir),
            decreases out.len() - p,
        {
            p = p + 1;
        }
        proof {
            lemma_ins_pos(ps@, out@, x, col, dir, p as int);
            let t = idxs@.take(k + 1);
            assert(t.drop_last() == idxs@.take(k as int));
            assert(t.last() == x);
        }
        out.insert(p, x);
        k = k + 1;
    }
    assert(idxs@.take(idxs@.len() as int) == idxs@);
    out
}

// ---------------------------------------------------------------------------
// What sorting guarantees
// ---------------------------------------------------------------------------

proof fn lemma_lex_asym(a: Seq<char>, b: Seq<char>)
    ensures
        !(lex_lt(a, b) && lex_lt(b, a)),
    decreases a.len(),
{
    if a.len() > 0 && b.len() > 0 && a[0] == b[0] {
        lemma_lex_asym(a.drop_first(), b.drop_first());
    }
}

proof fn lemma_lex_trans(a: Seq<char>, b: Seq<char>, c: Seq<char>)
    requires
        lex_lt(a, b),
        lex_lt(b, c),
    ensures
        lex_lt(a, c),
    decreases a.len(),
{
    if a.len() > 0 && b.len() > 0 && c.len() > 0 && a[0] == b[0] && b[0] == c[0] {
        lemma_lex_trans(a.drop_first(), b.drop_first(), c.drop_first());
    }
}

/// `precedes` is a strict order: never both ways round, and transitive.
pub proof fn lemma_precedes_strict(
    a: ProcessInfo,
    b: ProcessInfo,
    c: ProcessInfo,
    col: SortColumn,
    dir: SortDirection,
)
    ensures
        !(precedes(a, b, col, dir) && precedes(b, a, col, dir)),
        precedes(a, b, col, dir) && precedes(b, c, col, dir) ==> precedes(a, c, col, dir),
{
    let (la, lb, lc) = (
        text::lower_text(a.name@),
        text::lower_text(b.name@),
        text::lower_text(c.name@),
    );
    lemma_lex_asym(la, lb);
    if col == SortColumn::Name {
        if dir == SortDirection::Ascending {
            if lex_lt(la, lb) && lex_lt(lb, lc) {
                lemma_lex_trans(la, lb, lc);
            }
        } else {
            if lex_lt(lb, la) && lex_lt(lc, lb) {
                lemma_lex_trans(lc, lb, la);
            }
        }
    }
}

/// Sorting rearranges the indices: each occurs as often as in the input.
pub proof fn lemma_sort_idx_permutes(ps: Seq<ProcessInfo>, idxs: Seq<usize>, col: SortColumn, dir: SortDirection)
    ensures
        sort_idx(ps, idxs, col, dir).to_multiset() == idxs.to_multiset(),
    decreases idxs.len(),
{
    broadcast use vstd::seq_lib::to_multiset_insert;

    if idxs.len() > 0 {
        let s = sort_idx(ps, idxs.drop_last(), col, dir);
        lemma_sort_idx_permutes(ps, idxs.drop_last(), col, dir);
        lemma_ins_pos_le(ps, s, idxs.last(), col, dir);
        assert(idxs == idxs.drop_last().push(idxs.last()));
        idxs.drop_last().to_multiset_ensures();
    }
}

/// Sorting orders the indices: no process comes after one that it
/// precedes.
pub proof fn lemma_sort_idx_sorted(ps: Seq<ProcessInfo>, idxs: Seq<usize>, col: SortColumn, dir: SortDirection)
    ensures
        forall|i: int, j: int|
            0 <= i < j < sort_idx(ps, idxs, col, dir).len() ==> !precedes(
                ps[sort_idx(ps, idxs, col, dir)[j] as int],
                ps[sort_idx(ps, idxs, col, dir)[i] as int],
                col,
                dir,
            ),
    decreases idxs.len(),
{
    if idxs.len() > 0 {
        let s = sort_idx(ps, idxs.drop_last(), col, dir);
        let x = idxs.last();
        lemma_sort_idx_sorted(ps, idxs.drop_last(), col, dir);
        lemma_ins_pos_le(ps, s, x, col, dir);
        let p = ins_pos(ps, s, x, col, dir) as int;
        lemma_ins_pos_props(ps, s, x, col, dir);
        lemma_insert_sorted(ps, s, x, p, col, dir);
    }
}

proof fn lemma_insert_sorted(ps: Seq<ProcessInfo>, s: Seq<usize>, x: usize, p: int, col: SortColumn, dir: SortDirection)
    requires
        0 <= p <= s.len(),
        forall|i: int, j: int|
            0 <= i < j < s.len() ==> !precedes(ps[s[j] as int], ps[s[i] as int], col, dir),
        forall|k: int| 0 <= k < p ==> !precedes(ps[x as int], #[trigger] ps[s[k] as int], col, dir),
        p < s.len() ==> precedes(ps[x as int], ps[s[p] as int], col, dir),
    ensures
        forall|i: int, j: int|
            0 <= i < j < s.insert(p, x).len() ==> !precedes(
                ps[s.insert(p, x)[j] as int],
                ps[s.insert(p, x)[i] as int],
                col,
                dir,
            ),
{
    let r = s.insert(p, x);
    s.insert_ensures(p, x);
    assert forall|i: int, j: int| 0 <= i < j < r.len() implies !precedes(
        ps[r[j] as int],
        ps[r[i] as int],
        col,
        dir,
    ) by {
        if j < p {
            assert(r[i] == s[i] && r[j] == s[j]);
        } else if j == p {
            assert(r[i] == s[i]);
        } else if i == p {
            assert(r[j] == s[j - 1]);
            let px = ps[x as int];
            let pp = ps[s[p] as int];
            let pj = ps[s[j - 1] as int];
            lemma_precedes_strict(px, pp, pj, col, dir);
            lemma_precedes_strict(pj, px, pp, col, dir);
        } else if i < p {
            assert(r[i] == s[i] && r[j] == s[j - 1]);
        } else {
            assert(r[i] == s[i - 1] && r[j] == s[j - 1]);
        }
    }
}

proof fn lemma_ins_pos_props(
    ps: Seq<ProcessInfo>,
    sorted: Seq<usize>,
    x: usize,
    col: SortColumn,
    dir: SortDirection,
)
    ensures
        forall|j: int|
            0 <= j < ins_pos(ps, sorted, x, col, dir) ==> !precedes(
                ps[x as int],
                #[trigger] ps[sorted[j] as int],
                col,
                dir,
            ),
        ins_pos(ps, sorted, x, col, dir) < sorted.len() ==> precedes(
            ps[x as int],
            ps[sorted[ins_pos(ps, sorted, x, col, dir) as int] as int],
            col,
            dir,
        ),
    decreases sorted.len(),
{
    if sorted.len() > 0 && !precedes(ps[x as int], ps[sorted[0] as int], col, dir) {
        lemma_ins_pos_props(ps, sorted.drop_first(), x, col, dir);
        lemma_ins_pos_le(ps, sorted.drop_first(), x, col, dir);
        assert forall|j: int| 0 <= j < ins_pos(ps, sorted, x, col, dir) implies !precedes(
            ps[x as int],
            #[trigger] ps[sorted[j] as int],
            col,
            dir,
        ) by {
            if j > 0 {
                assert(sorted[j] == sorted.drop_first()[j - 1]);
            }
        }
        if ins_pos(ps, sorted, x, col, dir) < sorted.len() {
            let k = ins_pos(ps, sorted, x, col, dir) as int;
            assert(sorted[k] == sorted.drop_first()[k - 1]);
        }
    }
}

/// The indices of the matching processes are increasing and are exactly
/// those below `n` whose process matches.
proof fn lemma_matching_idx(ps: Seq<ProcessInfo>, search: Seq<char>, n: nat)
    requires
        n <= ps.len() <= usize::MAX,
    ensures
        forall|a: int, b: int|
            0 <= a < b < matching_idx(ps, search, n).len() ==> matching_idx(ps, search, n)[a]
                < matching_idx(ps, search, n)[b],
        forall|k: int|
            0 <= k < matching_idx(ps, search, n).len() ==> matching_idx(ps, search, n)[k] < n,
        forall|i: int|
            0 <= i < n ==> (matching_idx(ps, search, n).contains(i as usize) <==> proc_matches(
                ps[i],
                search,
            )),
    decreases n,
{
    if n > 0 {
        lemma_matching_idx(ps, search, (n - 1) as nat);
        let rest = matching_idx(ps, search, (n - 1) as nat);
        let m = matching_idx(ps, search, n);
        let top = (n - 1) as usize;
        assert(top == n - 1);
        if proc_matches(ps[n - 1], search) {
            assert(m == rest.push(top));
        } else {
            assert(m == rest);
        }
        assert forall|a: int, b: int| 0 <= a < b < m.len() implies m[a] < m[b] by {
            if b < rest.len() {
                assert(m[a] == rest[a] && m[b] == rest[b]);
            } else {
                assert(m[a] == rest[a]);
                assert(m[b] == top);
            }
        }
        assert forall|k: int| 0 <= k < m.len() implies m[k] < n by {
            if k < rest.len() {
                assert(m[k] == rest[k]);
            }
        }
        assert forall|i: int| 0 <= i < n implies (m.contains(i as usize) <==> proc_matches(
            ps[i],
            search,
        )) by {
            let iu = i as usize;
            assert(iu == i);
            if i < n - 1 {
                if m.contains(iu) {
                    let k = choose|k: int| 0 <= k < m.len() && m[k] == iu;
                    if k < rest.len() {
                        assert(rest[k] == m[k]);
                    } else {
                        assert(m[k] == top);
                    }
                }
                if rest.contains(iu) {
                    let k = choose|k: int| 0 <= k < rest.len() && rest[k] == iu;
                    assert(m[k] == rest[k]);
                }
            } else {
                if proc_matches(ps[i], search) {
                    assert(m[m.len() - 1] == iu);
                } else if m.contains(iu) {
                    let k = choose|k: int| 0 <= k < m.len() && m[k] == iu;
                    assert(m[k] == rest[k]);
                }
            }
        }
    }
}

// ---------------------------------------------------------------------------
// Search filter
// ---------------------------------------------------------------------------

/// The process matches the search text: the text is empty, or its lowercase
/// occurs in the lowercase process name or in the decimal pid.
pub open spec fn proc_matches(p: ProcessInfo, search: Seq<char>) -> bool {
    search.len() == 0 || {
        let q = text::lower_text(search);
        text::has_sub(text::lower_text(p.name@), q) || text::has_sub(num::dec(p.pid as nat), q)
    }
}

/// Indices among the first `n` processes that match the search, in order.
pub open spec fn matching_idx(ps: Seq<ProcessInfo>, search: Seq<char>, n: nat) -> Seq<usize>
    decreases n,
{
    if n == 0 {
        seq![]
    } else {
        let rest = matching_idx(ps, search, (n - 1) as nat);
        if proc_matches(ps[n - 1], search) {
            rest.push((n - 1) as usize)
        } else {
            rest
        }
    }
}

/// Search text prepared for matching: empty, or lowercased.
pub struct Query {
    pub empty: bool,
    pub lower: Vec<char>,
}

impl Query {
    pub open spec fn of(&self, search: Seq<char>) -> bool {
        &&& self.empty == (search.len() == 0)
        &&& !self.empty ==> self.lower@ == text::lower_text(search)
    }

    pub fn new(search: &str) -> (r: Query)
        ensures
            r.of(search@),
    {
        let v = chars_of(search);
        if v.len() == 0 {
            Query { empty: true, lower: Vec::new() }
        } else {
            let l = to_lower(search);
            Query { empty: false, lower: chars_of(l.as_str()) }
        }
    }
}

fn matches_at(ps: &Vec<ProcessInfo>, keys: &SortKeys, i: usize, q: &Query, search: Ghost<Seq<char>>) -> (r: bool)
    requires
        keys.fits(ps@),
        q.of(search@),
        i < ps@.len(),
    ensures
        r == proc_matches(ps@[i as int], search@),
{
    if q.empty {
        return true;
    }
    assert(keys.names@[i as int]@ == text::lower_text(ps@[i as int].name@));
    if text::contains(&keys.names[i], &q.lower) {
        return true;
    }
    let mut d: Vec<char> = Vec::new();
    num::push_dec(&mut d, ps[i].pid as u128);
    assert(d@ == num::dec(ps@[i as int].pid as nat));
    text::contains(&d, &q.lower)
}

fn matching_indices(ps: &Vec<ProcessInfo>, keys: &SortKeys, q: &Query, search: Ghost<Seq<char>>) -> (r: Vec<usize>)
    requires
        keys.fits(ps@),
        q.of(search@),
    ensures
        r@ == matching_idx(ps@, search@, ps@.len()),
        forall|k: int| 0 <= k < r@.len() ==> #[trigger] r@[k] < ps@.len(),
{
    let mut out: Vec<usize> = Vec::new();
    let mut i: usize = 0;
    while i < ps.len()
        invariant
            i <= ps@.len(),
            keys.fits(ps@),
            q.of(search@),
            out@ == matching_idx(ps@, search@, i as nat),
            forall|k: int| 0 <= k < out@.len() ==> #[trigger] out@[k] < i,
        decreases ps.len() - i,
    {
        if matches_at(ps, keys, i, q, search) {
            out.push(i);
        }
        i = i + 1;
    }
    out
}

/// The records at the given indices, in order.
pub open spec fn pick(ps: Seq<ProcessInfo>, idxs: Seq<usize>) -> Seq<ProcessInfo> {
    idxs.map_values(|i: usize| ps[i as int])
}

/// `a` may stand before `b` in a list sorted by `col` in direction `dir`:
/// the column's value of `a` is at most that of `b` (at least, descending).
/// Pid, memory and GPU memory compare their integers; CPU compares the
/// usage order of the `f32` values; names compare their lowercase text
/// character by character.
pub open spec fn in_column_order(a: ProcessInfo, b: ProcessInfo, col: SortColumn, dir: SortDirection) -> bool {
    let (x, y) = match dir {
        SortDirection::Ascending => (a, b),
        SortDirection::Descending => (b, a),
    };
    match col {
        SortColumn::Pid => x.pid <= y.pid,
        SortColumn::Memory => x.memory_bytes <= y.memory_bytes,
        SortColumn::GpuMemory => x.gpu_memory_bytes <= y.gpu_memory_bytes,
        SortColumn::Cpu => cpu_key(x.cpu_usage_bits) <= cpu_key(y.cpu_usage_bits),
        SortColumn::Name => !lex_lt(text::lower_text(y.name@), text::lower_text(x.name@)),
    }
}

/// The process list is ordered by the chosen column: for any search,
/// column and direction, each row of `process_list`'s result has a column
/// value no greater than the rows after it (no smaller, descending). So
/// sorting by GPU memory orders by `gpu_memory_bytes`, by memory by
/// `memory_bytes`, by pid by `pid`, whatever the other fields hold.
pub proof fn lemma_list_in_column_order(ps: Seq<ProcessInfo>, search: Seq<char>, col: SortColumn, dir: SortDirection)
    ensures
        forall|i: int, j: int|
            0 <= i < j < pick(ps, sort_idx(ps, matching_idx(ps, search, ps.len()), col, dir)).len()
                ==> in_column_order(
                #[trigger] pick(ps, sort_idx(ps, matching_idx(ps, search, ps.len()), col, dir))[i],
                #[trigger] pick(ps, sort_idx(ps, matching_idx(ps, search, ps.len()), col, dir))[j],
                col,
                dir,
            ),
{
    let s = sort_idx(ps, matching_idx(ps, search, ps.len()), col, dir);
    let l = pick(ps, s);
    lemma_sort_idx_sorted(ps, matching_idx(ps, search, ps.len()), col, dir);
    assert forall|i: int, j: int| 0 <= i < j < l.len() implies in_column_order(
        #[trigger] l[i],
        #[trigger] l[j],
        col,
        dir,
    ) by {
        assert(l[i] == ps[s[i] as int] && l[j] == ps[s[j] as int]);
        assert(!precedes(ps[s[j] as int], ps[s[i] as int], col, dir));
    }
}

fn pick_records(ps: &Vec<ProcessInfo>, idxs: &Vec<usize>) -> (r: Vec<ProcessInfo>)
    requires
        forall|k: int| 0 <= k < idxs@.len() ==> #[trigger] idxs@[k] < ps@.len(),
    ensures
        r@ == pick(ps@, idxs@),
{
    let mut out: Vec<ProcessInfo> = Vec::new();
    let mut k: usize = 0;
    while k < idxs.len()
        invariant
            k <= idxs@.len(),
            forall|m: int| 0 <= m < idxs@.len() ==> #[trigger] idxs@[m] < ps@.len(),
            out@ == pick(ps@, idxs@.take(k as int)),
        decreases idxs.len() - k,
    {
        out.push(ps[idxs[k]].copied());
        assert(pick(ps@, idxs@.take(k + 1)) =~= pick(ps@, idxs@.take(k as int)).push(
            ps@[idxs@[k as int] as int],
        ));
        k = k + 1;
    }
    assert(idxs@.take(idxs@.len() as int) == idxs@);
    out
}

/// The flat process list: the processes that match `search`, stably sorted
/// by `col` in direction `dir`.
pub fn process_list(
    ps: &Vec<ProcessInfo>,
    search: &str,
    col: SortColumn,
    dir: SortDirection,
) -> (r: Vec<ProcessInfo>)
    ensures
        r@ == pick(ps@, sort_idx(ps@, matching_idx(ps@, search@, ps@.len()), col, dir)),
        forall|i: int, j: int|
            0 <= i < j < r@.len() ==> !precedes(#[trigger] r@[j], #[trigger] r@[i], col, dir),
        forall|k: int| 0 <= k < r@.len() ==> proc_matches(#[trigger] r@[k], search@),
        sort_idx(ps@, matching_idx(ps@, search@, ps@.len()), col, dir).no_duplicates(),
        forall|i: int|
            0 <= i < ps@.len() ==> (sort_idx(
                ps@,
                matching_idx(ps@, search@, ps@.len()),
                col,
                dir,
            ).contains(i as usize) <==> proc_matches(#[trigger] ps@[i], search@)),
{
    let keys = SortKeys::new(ps);
    let q = Query::new(search);
    let idxs = matching_indices(ps, &keys, &q, Ghost(search@));
    let sorted = sort_indices(ps, &keys, &idxs, col, dir);
    let n = ps.len();
    proof {
        lemma_sort_idx_members(ps@, idxs@, col, dir);
        lemma_sort_list_laws(ps@, search@, col, dir);
    }
    pick_records(ps, &sorted)
}

proof fn lemma_sort_list_laws(ps: Seq<ProcessInfo>, search: Seq<char>, col: SortColumn, dir: SortDirection)
    requires
        ps.len() <= usize::MAX,
    ensures
        sort_idx(ps, matching_idx(ps, search, ps.len()), col, dir).no_duplicates(),
        forall|i: int|
            0 <= i < ps.len() ==> (sort_idx(ps, matching_idx(ps, search, ps.len()), col, dir).contains(
                i as usize,
            ) <==> proc_matches(#[trigger] ps[i], search)),
        forall|k: int|
            0 <= k < sort_idx(ps, matching_idx(ps, search, ps.len()), col, dir).len() ==> (
            #[trigger] sort_idx(ps, matching_idx(ps, search, ps.len()), col, dir)[k]) < ps.len()
                && proc_matches(
                ps[sort_idx(ps, matching_idx(ps, search, ps.len()), col, dir)[k] as int],
                search,
            ),
        forall|a: int, b: int|
            0 <= a < b < sort_idx(ps, matching_idx(ps, search, ps.len()), col, dir).len() ==> !precedes(
                ps[sort_idx(ps, matching_idx(ps, search, ps.len()), col, dir)[b] as int],
                ps[sort_idx(ps, matching_idx(ps, search, ps.len()), col, dir)[a] as int],
                col,
                dir,
            ),
{
    let m = matching_idx(ps, search, ps.len());
    let s = sort_idx(ps, m, col, dir);
    lemma_matching_idx(ps, search, ps.len());
    lemma_sort_idx_permutes(ps, m, col, dir);
    lemma_sort_idx_sorted(ps, m, col, dir);
    lemma_sort_idx_members(ps, m, col, dir);
    assert(m.no_duplicates()) by {
        assert forall|a: int, b: int| 0 <= a < m.len() && 0 <= b < m.len() && a != b implies m[a]
            != m[b] by {
            if a < b {
                assert(m[a] < m[b]);
            } else {
                assert(m[b] < m[a]);
            }
        }
    }
    m.lemma_multiset_has_no_duplicates();
    assert forall|x: usize| s.to_multiset().contains(x) implies s.to_multiset().count(x) == 1 by {}
    s.lemma_multiset_has_no_duplicates_conv();
    assert forall|i: int| 0 <= i < ps.len() implies (s.contains(i as usize) <==> proc_matches(
        #[trigger] ps[i],
        search,
    )) by {
        s.to_multiset_ensures();
        m.to_multiset_ensures();
        assert(s.contains(i as usize) <==> s.to_multiset().count(i as usize) > 0);
        assert(m.contains(i as usize) <==> m.to_multiset().count(i as usize) > 0);
    }
    assert forall|k: int| 0 <= k < s.len() implies (#[trigger] s[k]) < ps.len() && proc_matches(
        ps[s[k] as int],
        search,
    ) by {
        assert(m.contains(s[k]));
        let j = choose|j: int| 0 <= j < m.len() && m[j] == s[k];
        assert(m[j] < ps.len());
    }
}

/// Every index in the sorted sequence comes from the input.
proof fn lemma_sort_idx_members(ps: Seq<ProcessInfo>, idxs: Seq<usize>, col: SortColumn, dir: SortDirection)
    ensures
        forall|k: int|
            0 <= k < sort_idx(ps, idxs, col, dir).len() ==> idxs.contains(
                #[trigger] sort_idx(ps, idxs, col, dir)[k],
            ),
    decreases idxs.len(),
{
    if idxs.len() > 0 {
        let s = sort_idx(ps, idxs.drop_last(), col, dir);
        lemma_sort_idx_members(ps, idxs.drop_last(), col, dir);
        lemma_ins_pos_le(ps, s, idxs.last(), col, dir);
        let r = sort_idx(ps, idxs, col, dir);
        let p = ins_pos(ps, s, idxs.last(), col, dir) as int;
        assert forall|k: int| 0 <= k < r.len() implies idxs.contains(#[trigger] r[k]) by {
            if k < p {
                assert(r[k] == s[k]);
                assert(idxs.drop_last().contains(s[k]));
            } else if k == p {
                assert(r[k] == idxs[idxs.len() - 1]);
            } else {
                assert(r[k] == s[k - 1]);
                assert(idxs.drop_last().contains(s[k - 1]));
            }
        }
    }
}

// ---------------------------------------------------------------------------
// Process tree
// ---------------------------------------------------------------------------

/// Some process has this pid.
pub open spec fn pid_present(ps: Seq<ProcessInfo>, pid: u32) -> bool {
    exists|k: int| 0 <= k < ps.len() && ps[k].pid == pid
}

/// A tree root: no parent, or a parent that is not among the processes.
pub open spec fn is_root(ps: Seq<ProcessInfo>, i: int) -> bool {
    match ps[i].parent_pid {
        None => true,
        Some(pp) => !pid_present(ps, pp),
    }
}

/// Indices of the roots among the first `n` processes, in order.
pub open spec fn root_idx(ps: Seq<ProcessInfo>, n: nat) -> Seq<usize>
    decreases n,
{
    if n == 0 {
        seq![]
    } else {
        let rest = root_idx(ps, (n - 1) as nat);
        if is_root(ps, n - 1) {
            rest.push((n - 1) as usize)
        } else {
            rest
        }
    }
}

/// Indices of the children of `pid` among the first `n` processes, in order.
pub open spec fn child_idx(ps: Seq<ProcessInfo>, pid: u32, n: nat) -> Seq<usize>
    decreases n,
{
    if n == 0 {
        seq![]
    } else {
        let rest = child_idx(ps, pid, (n - 1) as nat);
        if ps[n - 1].parent_pid == Some(pid) {
            rest.push((n - 1) as usize)
        } else {
            rest
        }
    }
}

/// Rows shown for process `i` at depth `indent`: the process itself (with
/// whether it is expanded and whether it has children), then, if it is
/// expanded and has children, the rows of its children in sorted order one
/// level deeper. `fuel` bounds the depth; starting from the number of
/// processes, it is never reached on trees that the recursion can walk.
pub open spec fn node_rows(
    ps: Seq<ProcessInfo>,
    ex: Set<u32>,
    col: SortColumn,
    dir: SortDirection,
    i: usize,
    indent: usize,
    fuel: nat,
) -> Seq<(usize, usize, bool, bool)>
    decreases fuel, 0nat,
{
    let pid = ps[i as int].pid;
    let kids = sort_idx(ps, child_idx(ps, pid, ps.len()), col, dir);
    let hc = kids.len() > 0;
    let e = ex.contains(pid);
    seq![(i, indent, e, hc)] + if hc && e && fuel > 0 {
        list_rows(ps, ex, col, dir, kids, (indent + 1) as usize, (fuel - 1) as nat)
    } else {
        seq![]
    }
}

/// Rows of the processes `idxs`, one after another.
pub open spec fn list_rows(
    ps: Seq<ProcessInfo>,
    ex: Set<u32>,
    col: SortColumn,
    dir: SortDirection,
    idxs: Seq<usize>,
    indent: usize,
    fuel: nat,
) -> Seq<(usize, usize, bool, bool)>
    decreases fuel, idxs.len(),
{
    if idxs.len() == 0 {
        seq![]
    } else {
        list_rows(ps, ex, col, dir, idxs.drop_last(), indent, fuel) + node_rows(
            ps,
            ex,
            col,
            dir,
            idxs.last(),
            indent,
            fuel,
        )
    }
}

/// All rows of the tree: the sorted roots and what is expanded below them.
pub open spec fn tree_rows(
    ps: Seq<ProcessInfo>,
    ex: Set<u32>,
    col: SortColumn,
    dir: SortDirection,
) -> Seq<(usize, usize, bool, bool)> {
    list_rows(ps, ex, col, dir, sort_idx(ps, root_idx(ps, ps.len()), col, dir), 0, ps.len())
}

/// Rows whose process matches the search, in order.
pub open spec fn filter_rows(
    ps: Seq<ProcessInfo>,
    rows: Seq<(usize, usize, bool, bool)>,
    search: Seq<char>,
) -> Seq<(usize, usize, bool, bool)>
    decreases rows.len(),
{
    if rows.len() == 0 {
        seq![]
    } else {
        let rest = filter_rows(ps, rows.drop_last(), search);
        if proc_matches(ps[rows.last().0 as int], search) {
            rest.push(rows.last())
        } else {
            rest
        }
    }
}

/// The rows of the tree view, each with a copy of its process record.
pub open spec fn flat_tree_spec(
    ps: Seq<ProcessInfo>,
    ex: Set<u32>,
    search: Seq<char>,
    col: SortColumn,
    dir: SortDirection,
) -> Seq<(ProcessInfo, usize, bool, bool)> {
    filter_rows(ps, tree_rows(ps, ex, col, dir), search).map_values(
        |r: (usize, usize, bool, bool)| (ps[r.0 as int], r.1, r.2, r.3),
    )
}

/// Rows that nest from depth `d`: the first row is at depth `d`, no row is
/// shallower, each row is at most one level deeper than the row above, and a
/// row that is not an expanded parent is followed by a row no deeper than
/// itself.
pub open spec fn rows_nest(rows: Seq<(usize, usize, bool, bool)>, d: nat) -> bool {
    &&& rows.len() > 0 ==> rows[0].1 == d
    &&& forall|k: int| 0 <= k < rows.len() ==> (#[trigger] rows[k]).1 >= d
    &&& forall|k: int| 0 <= k < rows.len() - 1 ==> rows[k + 1].1 <= (#[trigger] rows[k]).1 + 1
    &&& forall|k: int|
        0 <= k < rows.len() - 1 && !((#[trigger] rows[k]).2 && rows[k].3) ==> rows[k + 1].1
            <= rows[k].1
}

proof fn lemma_nest_concat(a: Seq<(usize, usize, bool, bool)>, b: Seq<(usize, usize, bool, bool)>, d: nat)
    requires
        rows_nest(a, d),
        rows_nest(b, d),
    ensures
        rows_nest(a + b, d),
{
    let c = a + b;
    assert forall|k: int| 0 <= k < c.len() implies (#[trigger] c[k]).1 >= d by {
        if k < a.len() {
            assert(c[k] == a[k]);
        } else {
            assert(c[k] == b[k - a.len()]);
        }
    }
    assert forall|k: int| 0 <= k < c.len() - 1 implies c[k + 1].1 <= (#[trigger] c[k]).1 + 1 by {
        if k + 1 < a.len() {
            assert(c[k] == a[k] && c[k + 1] == a[k + 1]);
        } else if k + 1 == a.len() {
            assert(c[k] == a[k] && c[k + 1] == b[0]);
        } else {
            assert(c[k] == b[k - a.len()] && c[k + 1] == b[k + 1 - a.len()]);
        }
    }
    assert forall|k: int|
        0 <= k < c.len() - 1 && !((#[trigger] c[k]).2 && c[k].3) implies c[k + 1].1 <= c[k].1 by {
        if k + 1 < a.len() {
            assert(c[k] == a[k] && c[k + 1] == a[k + 1]);
        } else if k + 1 == a.len() {
            assert(c[k] == a[k] && c[k + 1] == b[0]);
        } else {
            assert(c[k] == b[k - a.len()] && c[k + 1] == b[k + 1 - a.len()]);
        }
    }
    if c.len() > 0 {
        if a.len() > 0 {
            assert(c[0] == a[0]);
        } else {
            assert(c[0] == b[0]);
        }
    }
}

proof fn lemma_node_rows_nest(
    ps: Seq<ProcessInfo>,
    ex: Set<u32>,
    col: SortColumn,
    dir: SortDirection,
    i: usize,
    indent: usize,
    fuel: nat,
)
    requires
        indent + fuel <= usize::MAX,
    ensures
        rows_nest(node_rows(ps, ex, col, dir, i, indent, fuel), indent as nat),
        node_rows(ps, ex, col, dir, i, indent, fuel).len() > 0,
    decreases fuel, 0nat,
{
    let pid = ps[i as int].pid;
    let kids = sort_idx(ps, child_idx(ps, pid, ps.len()), col, dir);
    let hc = kids.len() > 0;
    let e = ex.contains(pid);
    let head = seq![(i, indent, e, hc)];
    let rows = node_rows(ps, ex, col, dir, i, indent, fuel);
    if hc && e && fuel > 0 {
        let sub = list_rows(ps, ex, col, dir, kids, (indent + 1) as usize, (fuel - 1) as nat);
        lemma_list_rows_nest(ps, ex, col, dir, kids, (indent + 1) as usize, (fuel - 1) as nat);
        assert(rows == head + sub);
        assert forall|k: int| 0 <= k < rows.len() implies (#[trigger] rows[k]).1 >= indent by {
            if k > 0 {
                assert(rows[k] == sub[k - 1]);
            }
        }
        assert forall|k: int| 0 <= k < rows.len() - 1 implies rows[k + 1].1 <= (
        #[trigger] rows[k]).1 + 1 by {
            if k > 0 {
                assert(rows[k] == sub[k - 1] && rows[k + 1] == sub[k]);
            } else {
                assert(rows[1] == sub[0]);
            }
        }
        assert forall|k: int|
            0 <= k < rows.len() - 1 && !((#[trigger] rows[k]).2 && rows[k].3) implies rows[k + 1].1
            <= rows[k].1 by {
            if k > 0 {
                assert(rows[k] == sub[k - 1] && rows[k + 1] == sub[k]);
            }
        }
    } else {
        assert(rows == head);
    }
}

proof fn lemma_list_rows_nest(
    ps: Seq<ProcessInfo>,
    ex: Set<u32>,
    col: SortColumn,
    dir: SortDirection,
    idxs: Seq<usize>,
    indent: usize,
    fuel: nat,
)
    requires
        indent + fuel <= usize::MAX,
    ensures
        rows_nest(list_rows(ps, ex, col, dir, idxs, indent, fuel), indent as nat),
    decreases fuel, idxs.len(),
{
    if idxs.len() > 0 {
        lemma_list_rows_nest(ps, ex, col, dir, idxs.drop_last(), indent, fuel);
        lemma_node_rows_nest(ps, ex, col, dir, idxs.last(), indent, fuel);
        lemma_nest_concat(
            list_rows(ps, ex, col, dir, idxs.drop_last(), indent, fuel),
            node_rows(ps, ex, col, dir, idxs.last(), indent, fuel),
            indent as nat,
        );
    }
}

proof fn lemma_filter_all(ps: Seq<ProcessInfo>, rows: Seq<(usize, usize, bool, bool)>)
    ensures
        filter_rows(ps, rows, seq![]) == rows,
    decreases rows.len(),
{
    if rows.len() > 0 {
        lemma_filter_all(ps, rows.drop_last());
        assert(rows.drop_last().push(rows.last()) == rows);
    }
}

/// The tree view nests: without a search, its first row is a root at depth
/// zero, each row is at most one level deeper than the row above, and the
/// row after a process that is collapsed or has no children is no deeper
/// than that process, so collapsed branches show nothing below them.
pub proof fn lemma_tree_nests(ps: Seq<ProcessInfo>, ex: Set<u32>, col: SortColumn, dir: SortDirection)
    requires
        ps.len() <= usize::MAX,
    ensures
        rows_nest(tree_rows(ps, ex, col, dir), 0),
        filter_rows(ps, tree_rows(ps, ex, col, dir), seq![]) == tree_rows(ps, ex, col, dir),
{
    lemma_list_rows_nest(ps, ex, col, dir, sort_idx(ps, root_idx(ps, ps.len()), col, dir), 0, ps.len());
    lemma_filter_all(ps, tree_rows(ps, ex, col, dir));
}

/// Row `j` is the parent row of row `k`: it is above it, one level
/// shallower, no row between them is shallower than row `k`, and its process
/// is the parent of row `k`'s process.
pub open spec fn parent_row(ps: Seq<ProcessInfo>, rows: Seq<(usize, usize, bool, bool)>, k: int, j: int) -> bool {
    &&& 0 <= j < k < rows.len()
    &&& rows[j].1 + 1 == rows[k].1
    &&& forall|m: int| j < m < k ==> rows[k].1 <= (#[trigger] rows[m]).1
    &&& ps[rows[k].0 as int].parent_pid == Some(ps[rows[j].0 as int].pid)
}

/// Every row deeper than `d` has a parent row.
pub open spec fn rows_grouped(ps: Seq<ProcessInfo>, rows: Seq<(usize, usize, bool, bool)>, d: nat) -> bool {
    forall|k: int|
        0 <= k < rows.len() && (#[trigger] rows[k]).1 > d ==> exists|j: int| parent_row(ps, rows, k, j)
}

/// Rows at depth `d` show processes among `idxs`.
pub open spec fn heads_among(rows: Seq<(usize, usize, bool, bool)>, d: nat, idxs: Seq<usize>) -> bool {
    forall|k: int| 0 <= k < rows.len() && (#[trigger] rows[k]).1 == d ==> idxs.contains(rows[k].0)
}

proof fn lemma_grouped_concat(
    ps: Seq<ProcessInfo>,
    a: Seq<(usize, usize, bool, bool)>,
    b: Seq<(usize, usize, bool, bool)>,
    d: nat,
)
    requires
        rows_grouped(ps, a, d),
        rows_grouped(ps, b, d),
    ensures
        rows_grouped(ps, a + b, d),
{
    let c = a + b;
    assert forall|k: int| 0 <= k < c.len() && (#[trigger] c[k]).1 > d implies exists|j: int|
        parent_row(ps, c, k, j) by {
        if k < a.len() {
            assert(c[k] == a[k]);
            let j = choose|j: int| parent_row(ps, a, k, j);
            assert forall|m: int| j < m < k implies c[k].1 <= (#[trigger] c[m]).1 by {
                assert(c[m] == a[m]);
                assert(a[k].1 <= a[m].1);
            }
            assert(c[j] == a[j]);
            assert(parent_row(ps, c, k, j));
        } else {
            let kb = k - a.len();
            assert(c[k] == b[kb]);
            let jb = choose|j: int| parent_row(ps, b, kb, j);
            let j = jb + a.len();
            assert forall|m: int| j < m < k implies c[k].1 <= (#[trigger] c[m]).1 by {
                assert(c[m] == b[m - a.len()]);
                assert(b[kb].1 <= b[m - a.len()].1);
            }
            assert(c[j] == b[jb]);
            assert(parent_row(ps, c, k, j));
        }
    }
}

proof fn lemma_heads_concat(
    a: Seq<(usize, usize, bool, bool)>,
    b: Seq<(usize, usize, bool, bool)>,
    d: nat,
    idxs: Seq<usize>,
)
    requires
        heads_among(a, d, idxs),
        heads_among(b, d, idxs),
    ensures
        heads_among(a + b, d, idxs),
{
    let c = a + b;
    assert forall|k: int| 0 <= k < c.len() && (#[trigger] c[k]).1 == d implies idxs.contains(c[k].0) by {
        if k < a.len() {
            assert(c[k] == a[k]);
        } else {
            assert(c[k] == b[k - a.len()]);
        }
    }
}

proof fn lemma_child_idx_parent(ps: Seq<ProcessInfo>, pid: u32, n: nat)
    requires
        n <= ps.len(),
        ps.len() <= usize::MAX,
    ensures
        forall|k: int|
            0 <= k < child_idx(ps, pid, n).len() ==> (#[trigger] child_idx(ps, pid, n)[k]) < n
                && ps[child_idx(ps, pid, n)[k] as int].parent_pid == Some(pid),
    decreases n,
{
    if n > 0 {
        lemma_child_idx_parent(ps, pid, (n - 1) as nat);
        let rest = child_idx(ps, pid, (n - 1) as nat);
        let all = child_idx(ps, pid, n);
        assert forall|k: int| 0 <= k < all.len() implies (#[trigger] all[k]) < n && ps[all[k] as int].parent_pid
            == Some(pid) by {
            if k < rest.len() {
                assert(all[k] == rest[k]);
            } else {
                assert(all[k] == (n - 1) as usize);
            }
        }
    }
}

proof fn lemma_node_rows_grouped(
    ps: Seq<ProcessInfo>,
    ex: Set<u32>,
    col: SortColumn,
    dir: SortDirection,
    i: usize,
    indent: usize,
    fuel: nat,
)
    requires
        indent + fuel <= usize::MAX,
        ps.len() <= usize::MAX,
    ensures
        rows_grouped(ps, node_rows(ps, ex, col, dir, i, indent, fuel), indent as nat),
        heads_among(node_rows(ps, ex, col, dir, i, indent, fuel), indent as nat, seq![i]),
    decreases fuel, 0nat,
{
    let pid = ps[i as int].pid;
    let kids0 = child_idx(ps, pid, ps.len());
    let kids = sort_idx(ps, kids0, col, dir);
    let hc = kids.len() > 0;
    let e = ex.contains(pid);
    let head = seq![(i, indent, e, hc)];
    let rows = node_rows(ps, ex, col, dir, i, indent, fuel);
    if hc && e && fuel > 0 {
        let d1 = (indent + 1) as usize;
        let sub = list_rows(ps, ex, col, dir, kids, d1, (fuel - 1) as nat);
        lemma_list_rows_grouped(ps, ex, col, dir, kids, d1, (fuel - 1) as nat);
        lemma_list_rows_nest(ps, ex, col, dir, kids, d1, (fuel - 1) as nat);
        lemma_sort_idx_members(ps, kids0, col, dir);
        lemma_child_idx_parent(ps, pid, ps.len());
        assert(rows == head + sub);
        assert forall|k: int| 0 <= k < rows.len() && (#[trigger] rows[k]).1 > indent implies exists|j: int|
            parent_row(ps, rows, k, j) by {
            let ks = k - 1;
            assert(rows[k] == sub[ks]);
            if sub[ks].1 == d1 {
                assert(kids.contains(sub[ks].0));
                let q = choose|q: int| 0 <= q < kids.len() && kids[q] == sub[ks].0;
                assert(kids0.contains(kids[q]));
                let r = choose|r: int| 0 <= r < kids0.len() && kids0[r] == kids[q];
                assert(ps[kids0[r] as int].parent_pid == Some(pid));
                assert forall|m: int| 0 < m < k implies rows[k].1 <= (#[trigger] rows[m]).1 by {
                    assert(rows[m] == sub[m - 1]);
                }
                assert(rows[0] == head[0]);
                assert(parent_row(ps, rows, k, 0));
            } else {
                let js = choose|j: int| parent_row(ps, sub, ks, j);
                assert forall|m: int| js + 1 < m < k implies rows[k].1 <= (#[trigger] rows[m]).1 by {
                    assert(rows[m] == sub[m - 1]);
                    assert(sub[ks].1 <= sub[m - 1].1);
                }
                assert(rows[js + 1] == sub[js]);
                assert(parent_row(ps, rows, k, js + 1));
            }
        }
        assert forall|k: int| 0 <= k < rows.len() && (#[trigger] rows[k]).1 == indent implies seq![
            i,
        ].contains(rows[k].0) by {
            if k > 0 {
                assert(rows[k] == sub[k - 1]);
            } else {
                assert(seq![i][0] == i);
            }
        }
    } else {
        assert(rows == head);
        assert(seq![i][0] == i);
    }
}

proof fn lemma_list_rows_grouped(
    ps: Seq<ProcessInfo>,
    ex: Set<u32>,
    col: SortColumn,
    dir: SortDirection,
    idxs: Seq<usize>,
    indent: usize,
    fuel: nat,
)
    requires
        indent + fuel <= usize::MAX,
        ps.len() <= usize::MAX,
    ensures
        rows_grouped(ps, list_rows(ps, ex, col, dir, idxs, indent, fuel), indent as nat),
        heads_among(list_rows(ps, ex, col, dir, idxs, indent, fuel), indent as nat, idxs),
    decreases fuel, idxs.len(),
{
    if idxs.len() > 0 {
        let front = idxs.drop_last();
        let x = idxs.last();
        lemma_list_rows_grouped(ps, ex, col, dir, front, indent, fuel);
        lemma_node_rows_grouped(ps, ex, col, dir, x, indent, fuel);
        let a = list_rows(ps, ex, col, dir, front, indent, fuel);
        let b = node_rows(ps, ex, col, dir, x, indent, fuel);
        lemma_grouped_concat(ps, a, b, indent as nat);
        assert forall|k: int| 0 <= k < a.len() && (#[trigger] a[k]).1 == indent implies idxs.contains(
            a[k].0,
        ) by {
            assert(front.contains(a[k].0));
            let q = choose|q: int| 0 <= q < front.len() && front[q] == a[k].0;
            assert(idxs[q] == front[q]);
        }
        assert forall|k: int| 0 <= k < b.len() && (#[trigger] b[k]).1 == indent implies idxs.contains(
            b[k].0,
        ) by {
            assert(seq![x].contains(b[k].0));
            assert(idxs[idxs.len() - 1] == x);
        }
        lemma_heads_concat(a, b, indent as nat, idxs);
    }
}

/// The tree view groups processes under their parents: without a search,
/// every row below the top level has a parent row, the nearest row above it
/// that is one level shallower, and that row shows the parent of its
/// process.
pub proof fn lemma_tree_groups(ps: Seq<ProcessInfo>, ex: Set<u32>, col: SortColumn, dir: SortDirection)
    requires
        ps.len() <= usize::MAX,
    ensures
        rows_grouped(ps, tree_rows(ps, ex, col, dir), 0),
{
    lemma_list_rows_grouped(ps, ex, col, dir, sort_idx(ps, root_idx(ps, ps.len()), col, dir), 0, ps.len());
}

/// Process `i` has exactly `d` ancestors along its parent chain: it is a
/// root when `d` is zero, otherwise its parent (a process whose pid is its
/// parent pid) has `d - 1`.
pub open spec fn has_chain(ps: Seq<ProcessInfo>, i: int, d: nat) -> bool
    decreases d,
{
    if d == 0 {
        is_root(ps, i)
    } else {
        exists|p: int|
            0 <= p < ps.len() && ps[i].parent_pid == Some(#[trigger] ps[p].pid) && has_chain(
                ps,
                p,
                (d - 1) as nat,
            )
    }
}

/// Process `i` has exactly `d` ancestors and each of them is expanded: it is
/// a root when `d` is zero, otherwise its parent is expanded and has `d - 1`
/// ancestors, all expanded.
pub open spec fn expanded_chain(ps: Seq<ProcessInfo>, ex: Set<u32>, i: int, d: nat) -> bool
    decreases d,
{
    if d == 0 {
        is_root(ps, i)
    } else {
        exists|p: int|
            0 <= p < ps.len() && ps[i].parent_pid == Some(#[trigger] ps[p].pid) && ex.contains(
                ps[p].pid,
            ) && expanded_chain(ps, ex, p, (d - 1) as nat)
    }
}

/// Some process has `pid` as its parent.
pub open spec fn has_child(ps: Seq<ProcessInfo>, pid: u32) -> bool {
    exists|j: int| 0 <= j < ps.len() && (#[trigger] ps[j]).parent_pid == Some(pid)
}

/// Each row shows a process, with the expanded flag of its pid and whether
/// it has children.
pub open spec fn rows_flags(ps: Seq<ProcessInfo>, ex: Set<u32>, rows: Seq<(usize, usize, bool, bool)>) -> bool {
    forall|k: int|
        0 <= k < rows.len() ==> {
            &&& (#[trigger] rows[k]).0 < ps.len()
            &&& rows[k].2 == ex.contains(ps[rows[k].0 as int].pid)
            &&& rows[k].3 == has_child(ps, ps[rows[k].0 as int].pid)
        }
}

proof fn lemma_flags_concat(
    ps: Seq<ProcessInfo>,
    ex: Set<u32>,
    a: Seq<(usize, usize, bool, bool)>,
    b: Seq<(usize, usize, bool, bool)>,
)
    requires
        rows_flags(ps, ex, a),
        rows_flags(ps, ex, b),
    ensures
        rows_flags(ps, ex, a + b),
{
    let c = a + b;
    assert forall|k: int| 0 <= k < c.len() implies {
        &&& (#[trigger] c[k]).0 < ps.len()
        &&& c[k].2 == ex.contains(ps[c[k].0 as int].pid)
        &&& c[k].3 == has_child(ps, ps[c[k].0 as int].pid)
    } by {
        if k < a.len() {
            assert(c[k] == a[k]);
        } else {
            assert(c[k] == b[k - a.len()]);
        }
    }
}

proof fn lemma_child_idx_nonempty(ps: Seq<ProcessInfo>, pid: u32, n: nat)
    requires
        n <= ps.len(),
    ensures
        child_idx(ps, pid, n).len() > 0 <==> exists|j: int|
            0 <= j < n && (#[trigger] ps[j]).parent_pid == Some(pid),
    decreases n,
{
    if n > 0 {
        lemma_child_idx_nonempty(ps, pid, (n - 1) as nat);
        if ps[n - 1].parent_pid == Some(pid) {
            assert(ps[n - 1].parent_pid == Some(pid));
        } else {
            assert forall|j: int| 0 <= j < n && (#[trigger] ps[j]).parent_pid == Some(pid) implies j < n - 1 by {}
        }
    }
}

proof fn lemma_node_rows_flags(
    ps: Seq<ProcessInfo>,
    ex: Set<u32>,
    col: SortColumn,
    dir: SortDirection,
    i: usize,
    indent: usize,
    fuel: nat,
)
    requires
        i < ps.len(),
        ps.len() <= usize::MAX,
    ensures
        rows_flags(ps, ex, node_rows(ps, ex, col, dir, i, indent, fuel)),
    decreases fuel, 0nat,
{
    let pid = ps[i as int].pid;
    let kids0 = child_idx(ps, pid, ps.len());
    let kids = sort_idx(ps, kids0, col, dir);
    let hc = kids.len() > 0;
    let e = ex.contains(pid);
    let head = seq![(i, indent, e, hc)];
    lemma_sort_idx_len(ps, kids0, col, dir);
    lemma_child_idx_nonempty(ps, pid, ps.len());
    assert(rows_flags(ps, ex, head)) by {
        assert(head[0] == (i, indent, e, hc));
    }
    if hc && e && fuel > 0 {
        let d1 = (indent + 1) as usize;
        lemma_sort_idx_members(ps, kids0, col, dir);
        lemma_child_idx_parent(ps, pid, ps.len());
        assert forall|q: int| 0 <= q < kids.len() implies (#[trigger] kids[q]) < ps.len() by {
            assert(kids0.contains(kids[q]));
        }
        lemma_list_rows_flags(ps, ex, col, dir, kids, d1, (fuel - 1) as nat);
        lemma_flags_concat(ps, ex, head, list_rows(ps, ex, col, dir, kids, d1, (fuel - 1) as nat));
    } else {
        assert(node_rows(ps, ex, col, dir, i, indent, fuel) == head);
    }
}

proof fn lemma_list_rows_flags(
    ps: Seq<ProcessInfo>,
    ex: Set<u32>,
    col: SortColumn,
    dir: SortDirection,
    idxs: Seq<usize>,
    indent: usize,
    fuel: nat,
)
    requires
        forall|q: int| 0 <= q < idxs.len() ==> (#[trigger] idxs[q]) < ps.len(),
        ps.len() <= usize::MAX,
    ensures
        rows_flags(ps, ex, list_rows(ps, ex, col, dir, idxs, indent, fuel)),
    decreases fuel, idxs.len(),
{
    if idxs.len() > 0 {
        let front = idxs.drop_last();
        assert forall|q: int| 0 <= q < front.len() implies (#[trigger] front[q]) < ps.len() by {
            assert(front[q] == idxs[q]);
        }
        lemma_list_rows_flags(ps, ex, col, dir, front, indent, fuel);
        lemma_node_rows_flags(ps, ex, col, dir, idxs.last(), indent, fuel);
        lemma_flags_concat(
            ps,
            ex,
            list_rows(ps, ex, col, dir, front, indent, fuel),
            node_rows(ps, ex, col, dir, idxs.last(), indent, fuel),
        );
    }
}

proof fn lemma_root_idx_roots(ps: Seq<ProcessInfo>, n: nat)
    requires
        n <= ps.len(),
        ps.len() <= usize::MAX,
    ensures
        forall|k: int|
            0 <= k < root_idx(ps, n).len() ==> (#[trigger] root_idx(ps, n)[k]) < n && is_root(
                ps,
                root_idx(ps, n)[k] as int,
            ),
    decreases n,
{
    if n > 0 {
        lemma_root_idx_roots(ps, (n - 1) as nat);
        let rest = root_idx(ps, (n - 1) as nat);
        let all = root_idx(ps, n);
        assert forall|k: int| 0 <= k < all.len() implies (#[trigger] all[k]) < n && is_root(
            ps,
            all[k] as int,
        ) by {
            if k < rest.len() {
                assert(all[k] == rest[k]);
            } else {
                assert(all[k] == (n - 1) as usize);
            }
        }
    }
}

/// The tree view shows each process where it belongs: without a search,
/// every row's depth is the number of ancestors of its process (the length
/// of its parent chain up to a root), every one of those ancestors is
/// expanded, and the row's expanded and has-children flags are those of its
/// process.
#[verifier::spinoff_prover]
#[verifier::rlimit(40)]
pub proof fn lemma_tree_depths(ps: Seq<ProcessInfo>, ex: Set<u32>, col: SortColumn, dir: SortDirection)
    requires
        ps.len() <= usize::MAX,
    ensures
        rows_flags(ps, ex, tree_rows(ps, ex, col, dir)),
        forall|k: int|
            0 <= k < tree_rows(ps, ex, col, dir).len() ==> has_chain(
                ps,
                (#[trigger] tree_rows(ps, ex, col, dir)[k]).0 as int,
                tree_rows(ps, ex, col, dir)[k].1 as nat,
            ),
        forall|k: int|
            0 <= k < tree_rows(ps, ex, col, dir).len() ==> expanded_chain(
                ps,
                ex,
                (#[trigger] tree_rows(ps, ex, col, dir)[k]).0 as int,
                tree_rows(ps, ex, col, dir)[k].1 as nat,
            ),
{
    let roots0 = root_idx(ps, ps.len());
    let roots = sort_idx(ps, roots0, col, dir);
    let rows = tree_rows(ps, ex, col, dir);
    lemma_root_idx_roots(ps, ps.len());
    lemma_sort_idx_members(ps, roots0, col, dir);
    assert forall|q: int| 0 <= q < roots.len() implies (#[trigger] roots[q]) < ps.len() by {
        assert(roots0.contains(roots[q]));
    }
    lemma_list_rows_flags(ps, ex, col, dir, roots, 0, ps.len());
    lemma_list_rows_grouped(ps, ex, col, dir, roots, 0, ps.len());
    lemma_list_rows_nest(ps, ex, col, dir, roots, 0, ps.len());
    assert forall|k: int| 0 <= k < rows.len() implies has_chain(
        ps,
        (#[trigger] rows[k]).0 as int,
        rows[k].1 as nat,
    ) by {
        lemma_rows_chain(ps, rows, roots, k);
    }
    assert forall|k: int| 0 <= k < rows.len() implies expanded_chain(
        ps,
        ex,
        (#[trigger] rows[k]).0 as int,
        rows[k].1 as nat,
    ) by {
        lemma_rows_expanded_chain(ps, ex, rows, roots, k);
    }
}

#[verifier::spinoff_prover]
#[verifier::rlimit(40)]
proof fn lemma_rows_expanded_chain(
    ps: Seq<ProcessInfo>,
    ex: Set<u32>,
    rows: Seq<(usize, usize, bool, bool)>,
    roots: Seq<usize>,
    k: int,
)
    requires
        0 <= k < rows.len(),
        rows_grouped(ps, rows, 0),
        rows_nest(rows, 0),
        rows_flags(ps, ex, rows),
        heads_among(rows, 0, roots),
        forall|q: int| 0 <= q < roots.len() ==> is_root(ps, #[trigger] roots[q] as int),
    ensures
        expanded_chain(ps, ex, rows[k].0 as int, rows[k].1 as nat),
    decreases k,
{
    if rows[k].1 == 0 {
        assert(roots.contains(rows[k].0));
        let q = choose|q: int| 0 <= q < roots.len() && roots[q] == rows[k].0;
        assert(is_root(ps, roots[q] as int));
    } else {
        assert(rows[k].1 > 0nat);
        let j = choose|j: int| parent_row(ps, rows, k, j);
        lemma_rows_expanded_chain(ps, ex, rows, roots, j);
        let p = rows[j].0 as int;
        assert(rows[j + 1].1 > rows[j].1) by {
            if j + 1 < k {
                assert(rows[k].1 <= rows[j + 1].1);
            }
        }
        assert(rows[j].2 && rows[j].3) by {
            assert(0 <= j < rows.len() - 1);
            if !(rows[j].2 && rows[j].3) {
                assert(rows[j + 1].1 <= rows[j].1);
            }
        }
        assert(ex.contains(ps[p].pid)) by {
            assert(rows[j].2 == ex.contains(ps[rows[j].0 as int].pid));
        }
        assert(0 <= p < ps.len() && ps[rows[k].0 as int].parent_pid == Some(ps[p].pid) && ex.contains(
            ps[p].pid,
        ));
        assert(expanded_chain(ps, ex, p, (rows[k].1 - 1) as nat));
    }
}

#[verifier::spinoff_prover]
#[verifier::rlimit(40)]
proof fn lemma_rows_chain(
    ps: Seq<ProcessInfo>,
    rows: Seq<(usize, usize, bool, bool)>,
    roots: Seq<usize>,
    k: int,
)
    requires
        0 <= k < rows.len(),
        rows_grouped(ps, rows, 0),
        heads_among(rows, 0, roots),
        forall|q: int| 0 <= q < roots.len() ==> is_root(ps, #[trigger] roots[q] as int),
        forall|m: int| 0 <= m < rows.len() ==> (#[trigger] rows[m]).0 < ps.len(),
    ensures
        has_chain(ps, rows[k].0 as int, rows[k].1 as nat),
    decreases k,
{
    if rows[k].1 == 0 {
        assert(roots.contains(rows[k].0));
        let q = choose|q: int| 0 <= q < roots.len() && roots[q] == rows[k].0;
        assert(is_root(ps, roots[q] as int));
    } else {
        assert(rows[k].1 > 0nat);
        let j = choose|j: int| parent_row(ps, rows, k, j);
        lemma_rows_chain(ps, rows, roots, j);
        let p = rows[j].0 as int;
        assert(0 <= p < ps.len() && ps[rows[k].0 as int].parent_pid == Some(ps[p].pid));
        assert(has_chain(ps, p, (rows[k].1 - 1) as nat));
    }
}

/// Some row shows process `i` at depth `d`.
pub open spec fn shows(rows: Seq<(usize, usize, bool, bool)>, i: int, d: nat) -> bool {
    exists|k: int| 0 <= k < rows.len() && (#[trigger] rows[k]).0 == i && rows[k].1 == d
}

proof fn lemma_root_idx_complete(ps: Seq<ProcessInfo>, n: nat, i: int)
    requires
        n <= ps.len(),
        ps.len() <= usize::MAX,
        0 <= i < n,
        is_root(ps, i),
    ensures
        root_idx(ps, n).contains(i as usize),
    decreases n,
{
    if i < n - 1 {
        lemma_root_idx_complete(ps, (n - 1) as nat, i);
        let rest = root_idx(ps, (n - 1) as nat);
        let q = choose|q: int| 0 <= q < rest.len() && rest[q] == i as usize;
        assert(root_idx(ps, n)[q] == rest[q]);
    } else {
        let all = root_idx(ps, n);
        assert(all[all.len() - 1] == i as usize);
    }
}

proof fn lemma_child_idx_complete(ps: Seq<ProcessInfo>, pid: u32, n: nat, i: int)
    requires
        n <= ps.len(),
        ps.len() <= usize::MAX,
        0 <= i < n,
        ps[i].parent_pid == Some(pid),
    ensures
        child_idx(ps, pid, n).contains(i as usize),
    decreases n,
{
    if i < n - 1 {
        lemma_child_idx_complete(ps, pid, (n - 1) as nat, i);
        let rest = child_idx(ps, pid, (n - 1) as nat);
        let q = choose|q: int| 0 <= q < rest.len() && rest[q] == i as usize;
        assert(child_idx(ps, pid, n)[q] == rest[q]);
    } else {
        let all = child_idx(ps, pid, n);
        assert(all[all.len() - 1] == i as usize);
    }
}

proof fn lemma_sort_idx_contains(
    ps: Seq<ProcessInfo>,
    idxs: Seq<usize>,
    col: SortColumn,
    dir: SortDirection,
    x: usize,
)
    requires
        idxs.contains(x),
    ensures
        sort_idx(ps, idxs, col, dir).contains(x),
{
    lemma_sort_idx_permutes(ps, idxs, col, dir);
    idxs.to_multiset_ensures();
    sort_idx(ps, idxs, col, dir).to_multiset_ensures();
    assert(idxs.to_multiset().count(x) > 0);
    assert(sort_idx(ps, idxs, col, dir).to_multiset().count(x) > 0);
}

proof fn lemma_list_rows_heads(
    ps: Seq<ProcessInfo>,
    ex: Set<u32>,
    col: SortColumn,
    dir: SortDirection,
    idxs: Seq<usize>,
    indent: usize,
    fuel: nat,
    x: usize,
)
    requires
        idxs.contains(x),
    ensures
        shows(list_rows(ps, ex, col, dir, idxs, indent, fuel), x as int, indent as nat),
    decreases idxs.len(),
{
    let front = idxs.drop_last();
    let a = list_rows(ps, ex, col, dir, front, indent, fuel);
    let b = node_rows(ps, ex, col, dir, idxs.last(), indent, fuel);
    let c = a + b;
    if idxs.last() == x {
        assert(c[a.len() as int] == b[0]);
    } else {
        let q = choose|q: int| 0 <= q < idxs.len() && idxs[q] == x;
        assert(front[q] == x);
        lemma_list_rows_heads(ps, ex, col, dir, front, indent, fuel, x);
        let k = choose|k: int| 0 <= k < a.len() && (#[trigger] a[k]).0 == x as int && a[k].1 == indent as nat;
        assert(c[k] == a[k]);
    }
}

#[verifier::spinoff_prover]
#[verifier::rlimit(40)]
proof fn lemma_node_rows_children(
    ps: Seq<ProcessInfo>,
    ex: Set<u32>,
    col: SortColumn,
    dir: SortDirection,
    i: usize,
    indent: usize,
    fuel: nat,
    k: int,
    c: int,
)
    requires
        ps.len() <= usize::MAX,
        indent + fuel <= usize::MAX,
        0 <= k < node_rows(ps, ex, col, dir, i, indent, fuel).len(),
        0 <= c < ps.len(),
        ({
            let r = node_rows(ps, ex, col, dir, i, indent, fuel)[k];
            &&& r.0 < ps.len()
            &&& ex.contains(ps[r.0 as int].pid)
            &&& ps[c].parent_pid == Some(ps[r.0 as int].pid)
            &&& fuel + indent > r.1
        }),
    ensures
        shows(
            node_rows(ps, ex, col, dir, i, indent, fuel),
            c,
            (node_rows(ps, ex, col, dir, i, indent, fuel)[k].1 + 1) as nat,
        ),
    decreases fuel, 0nat,
{
    let pid = ps[i as int].pid;
    let kids0 = child_idx(ps, pid, ps.len());
    let kids = sort_idx(ps, kids0, col, dir);
    let rows = node_rows(ps, ex, col, dir, i, indent, fuel);
    let d1 = (indent + 1) as usize;
    if k == 0 {
        assert(rows[0].0 == i && rows[0].1 == indent);
        lemma_child_idx_complete(ps, pid, ps.len(), c);
        lemma_sort_idx_contains(ps, kids0, col, dir, c as usize);
        assert(kids.len() > 0);
        let sub = list_rows(ps, ex, col, dir, kids, d1, (fuel - 1) as nat);
        assert(rows == seq![rows[0]] + sub);
        lemma_list_rows_heads(ps, ex, col, dir, kids, d1, (fuel - 1) as nat, c as usize);
        let m = choose|m: int| 0 <= m < sub.len() && (#[trigger] sub[m]).0 == c && sub[m].1 == d1 as nat;
        assert(rows[m + 1] == sub[m]);
    } else {
        let hc = kids.len() > 0;
        let e = ex.contains(pid);
        assert(hc && e && fuel > 0);
        let sub = list_rows(ps, ex, col, dir, kids, d1, (fuel - 1) as nat);
        assert(rows == seq![rows[0]] + sub);
        assert(rows[k] == sub[k - 1]);
        lemma_list_rows_children(ps, ex, col, dir, kids, d1, (fuel - 1) as nat, k - 1, c);
        let m = choose|m: int| 0 <= m < sub.len() && (#[trigger] sub[m]).0 == c && sub[m].1 == (sub[k - 1].1 + 1) as nat;
        assert(rows[m + 1] == sub[m]);
    }
}

#[verifier::spinoff_prover]
#[verifier::rlimit(40)]
proof fn lemma_list_rows_children(
    ps: Seq<ProcessInfo>,
    ex: Set<u32>,
    col: SortColumn,
    dir: SortDirection,
    idxs: Seq<usize>,
    indent: usize,
    fuel: nat,
    k: int,
    c: int,
)
    requires
        ps.len() <= usize::MAX,
        indent + fuel <= usize::MAX,
        0 <= k < list_rows(ps, ex, col, dir, idxs, indent, fuel).len(),
        0 <= c < ps.len(),
        ({
            let r = list_rows(ps, ex, col, dir, idxs, indent, fuel)[k];
            &&& r.0 < ps.len()
            &&& ex.contains(ps[r.0 as int].pid)
            &&& ps[c].parent_pid == Some(ps[r.0 as int].pid)
            &&& fuel + indent > r.1
        }),
    ensures
        shows(
            list_rows(ps, ex, col, dir, idxs, indent, fuel),
            c,
            (list_rows(ps, ex, col, dir, idxs, indent, fuel)[k].1 + 1) as nat,
        ),
    decreases fuel, idxs.len(),
{
    let front = idxs.drop_last();
    let a = list_rows(ps, ex, col, dir, front, indent, fuel);
    let b = node_rows(ps, ex, col, dir, idxs.last(), indent, fuel);
    let rows = a + b;
    if k < a.len() {
        assert(rows[k] == a[k]);
        lemma_list_rows_children(ps, ex, col, dir, front, indent, fuel, k, c);
        let m = choose|m: int| 0 <= m < a.len() && (#[trigger] a[m]).0 == c && a[m].1 == (a[k].1 + 1) as nat;
        assert(rows[m] == a[m]);
    } else {
        assert(rows[k] == b[k - a.len()]);
        lemma_node_rows_children(ps, ex, col, dir, idxs.last(), indent, fuel, k - a.len(), c);
        let m = choose|m: int| 0 <= m < b.len() && (#[trigger] b[m]).0 == c && b[m].1 == (b[k - a.len()].1 + 1) as nat;
        assert(rows[m + a.len()] == b[m]);
    }
}

/// The tree view shows every process whose ancestors are all expanded:
/// without a search, a process with `d` ancestors, each expanded, has a row
/// at depth `d` (when `d` is at most the number of processes, as it is for
/// every process when pids are distinct). With `lemma_tree_depths`, a
/// process is shown exactly when all its ancestors are expanded.
#[verifier::spinoff_prover]
#[verifier::rlimit(40)]
pub proof fn lemma_tree_shows_expanded(
    ps: Seq<ProcessInfo>,
    ex: Set<u32>,
    col: SortColumn,
    dir: SortDirection,
    i: int,
    d: nat,
)
    requires
        ps.len() <= usize::MAX,
        0 <= i < ps.len(),
        d <= ps.len(),
        expanded_chain(ps, ex, i, d),
    ensures
        shows(tree_rows(ps, ex, col, dir), i, d),
    decreases d,
{
    let n = ps.len();
    let roots0 = root_idx(ps, n);
    let roots = sort_idx(ps, roots0, col, dir);
    let rows = tree_rows(ps, ex, col, dir);
    if d == 0 {
        lemma_root_idx_complete(ps, n, i);
        lemma_sort_idx_contains(ps, roots0, col, dir, i as usize);
        lemma_list_rows_heads(ps, ex, col, dir, roots, 0, n, i as usize);
    } else {
        let p = choose|p: int|
            0 <= p < ps.len() && ps[i].parent_pid == Some(#[trigger] ps[p].pid) && ex.contains(ps[p].pid)
                && expanded_chain(ps, ex, p, (d - 1) as nat);
        lemma_tree_shows_expanded(ps, ex, col, dir, p, (d - 1) as nat);
        let k = choose|k: int| 0 <= k < rows.len() && (#[trigger] rows[k]).0 == p && rows[k].1 == (d - 1) as nat;
        lemma_list_rows_children(ps, ex, col, dir, roots, 0, n, k, i);
    }
}

/// No two processes share a pid.
pub open spec fn pids_distinct(ps: Seq<ProcessInfo>) -> bool {
    forall|a: int, b: int|
        #![trigger ps[a], ps[b]]
        0 <= a < ps.len() && 0 <= b < ps.len() && a != b ==> ps[a].pid != ps[b].pid
}

/// The number of rows showing process `x` at depth `d`.
pub open spec fn row_count(rows: Seq<(usize, usize, bool, bool)>, x: int, d: nat) -> nat
    decreases rows.len(),
{
    if rows.len() == 0 {
        0
    } else {
        row_count(rows.drop_last(), x, d) + if rows.last().0 == x && rows.last().1 == d {
            1nat
        } else {
            0nat
        }
    }
}

/// Process `a` is the ancestor of process `x` `m` levels up (`x` itself when
/// `m` is zero).
pub open spec fn anc_is(ps: Seq<ProcessInfo>, x: int, m: nat, a: int) -> bool
    decreases m,
{
    if m == 0 {
        a == x
    } else {
        exists|p: int|
            0 <= p < ps.len() && ps[x].parent_pid == Some(#[trigger] ps[p].pid) && anc_is(
                ps,
                p,
                (m - 1) as nat,
                a,
            )
    }
}

proof fn lemma_count_concat(
    a: Seq<(usize, usize, bool, bool)>,
    b: Seq<(usize, usize, bool, bool)>,
    x: int,
    d: nat,
)
    ensures
        row_count(a + b, x, d) == row_count(a, x, d) + row_count(b, x, d),
    decreases b.len(),
{
    if b.len() == 0 {
        assert(a + b == a);
    } else {
        lemma_count_concat(a, b.drop_last(), x, d);
        assert((a + b).drop_last() == a + b.drop_last());
        assert((a + b).last() == b.last());
    }
}

proof fn lemma_count_deeper(rows: Seq<(usize, usize, bool, bool)>, x: int, d: nat)
    requires
        forall|k: int| 0 <= k < rows.len() ==> (#[trigger] rows[k]).1 > d,
    ensures
        row_count(rows, x, d) == 0,
    decreases rows.len(),
{
    if rows.len() > 0 {
        let f = rows.drop_last();
        assert forall|k: int| 0 <= k < f.len() implies (#[trigger] f[k]).1 > d by {
            assert(f[k] == rows[k]);
        }
        lemma_count_deeper(f, x, d);
        assert(rows.last() == rows[rows.len() - 1]);
    }
}

proof fn lemma_count_two(rows: Seq<(usize, usize, bool, bool)>, x: int, d: nat, k1: int, k2: int)
    requires
        0 <= k1 < rows.len(),
        0 <= k2 < rows.len(),
        rows[k1].0 == x && rows[k1].1 == d,
        rows[k2].0 == x && rows[k2].1 == d,
    ensures
        row_count(rows, x, d) >= 1,
        k1 != k2 ==> row_count(rows, x, d) >= 2,
    decreases rows.len(),
{
    let f = rows.drop_last();
    let l = rows.len() - 1;
    if k1 < l && k2 < l {
        assert(f[k1] == rows[k1] && f[k2] == rows[k2]);
        lemma_count_two(f, x, d, k1, k2);
    } else if k1 < l {
        assert(f[k1] == rows[k1]);
        lemma_count_two(f, x, d, k1, k1);
    } else if k2 < l {
        assert(f[k2] == rows[k2]);
        lemma_count_two(f, x, d, k2, k2);
    }
}

proof fn lemma_anc_extend(ps: Seq<ProcessInfo>, x: int, m: nat, a: int, b: int)
    requires
        anc_is(ps, x, m, a),
        0 <= b < ps.len(),
        ps[a].parent_pid == Some(ps[b].pid),
    ensures
        anc_is(ps, x, m + 1, b),
    decreases m,
{
    if m == 0 {
        assert(anc_is(ps, b, 0, b));
        assert(0 <= b < ps.len() && ps[x].parent_pid == Some(ps[b].pid) && anc_is(ps, b, 0, b));
    } else {
        let p = choose|p: int|
            0 <= p < ps.len() && ps[x].parent_pid == Some(#[trigger] ps[p].pid) && anc_is(
                ps,
                p,
                (m - 1) as nat,
                a,
            );
        lemma_anc_extend(ps, p, (m - 1) as nat, a, b);
        assert(anc_is(ps, p, m, b));
    }
}

proof fn lemma_anc_unique(ps: Seq<ProcessInfo>, x: int, m: nat, a1: int, a2: int)
    requires
        pids_distinct(ps),
        anc_is(ps, x, m, a1),
        anc_is(ps, x, m, a2),
    ensures
        a1 == a2,
    decreases m,
{
    if m > 0 {
        let p1 = choose|p: int|
            0 <= p < ps.len() && ps[x].parent_pid == Some(#[trigger] ps[p].pid) && anc_is(
                ps,
                p,
                (m - 1) as nat,
                a1,
            );
        let p2 = choose|p: int|
            0 <= p < ps.len() && ps[x].parent_pid == Some(#[trigger] ps[p].pid) && anc_is(
                ps,
                p,
                (m - 1) as nat,
                a2,
            );
        assert(ps[p1].pid == ps[p2].pid);
        assert(p1 == p2);
        lemma_anc_unique(ps, p1, (m - 1) as nat, a1, a2);
    }
}

proof fn lemma_child_idx_distinct(ps: Seq<ProcessInfo>, pid: u32, n: nat)
    requires
        n <= ps.len(),
        ps.len() <= usize::MAX,
    ensures
        child_idx(ps, pid, n).no_duplicates(),
    decreases n,
{
    if n > 0 {
        lemma_child_idx_distinct(ps, pid, (n - 1) as nat);
        lemma_child_idx_parent(ps, pid, (n - 1) as nat);
    }
}

proof fn lemma_root_idx_distinct(ps: Seq<ProcessInfo>, n: nat)
    requires
        n <= ps.len(),
        ps.len() <= usize::MAX,
    ensures
        root_idx(ps, n).no_duplicates(),
    decreases n,
{
    if n > 0 {
        lemma_root_idx_distinct(ps, (n - 1) as nat);
        lemma_root_idx_roots(ps, (n - 1) as nat);
    }
}

proof fn lemma_sort_idx_distinct(ps: Seq<ProcessInfo>, idxs: Seq<usize>, col: SortColumn, dir: SortDirection)
    requires
        idxs.no_duplicates(),
    ensures
        sort_idx(ps, idxs, col, dir).no_duplicates(),
{
    lemma_sort_idx_permutes(ps, idxs, col, dir);
    idxs.lemma_multiset_has_no_duplicates();
    sort_idx(ps, idxs, col, dir).lemma_multiset_has_no_duplicates_conv();
}

proof fn lemma_chain_unique(ps: Seq<ProcessInfo>, x: int, d1: nat, d2: nat)
    requires
        pids_distinct(ps),
        has_chain(ps, x, d1),
        has_chain(ps, x, d2),
    ensures
        d1 == d2,
    decreases d1,
{
    if d1 == 0 && d2 > 0 {
        let p = choose|p: int|
            0 <= p < ps.len() && ps[x].parent_pid == Some(#[trigger] ps[p].pid) && has_chain(
                ps,
                p,
                (d2 - 1) as nat,
            );
        assert(pid_present(ps, ps[p].pid));
    } else if d1 > 0 && d2 == 0 {
        let p = choose|p: int|
            0 <= p < ps.len() && ps[x].parent_pid == Some(#[trigger] ps[p].pid) && has_chain(
                ps,
                p,
                (d1 - 1) as nat,
            );
        assert(pid_present(ps, ps[p].pid));
    } else if d1 > 0 && d2 > 0 {
        let p1 = choose|p: int|
            0 <= p < ps.len() && ps[x].parent_pid == Some(#[trigger] ps[p].pid) && has_chain(
                ps,
                p,
                (d1 - 1) as nat,
            );
        let p2 = choose|p: int|
            0 <= p < ps.len() && ps[x].parent_pid == Some(#[trigger] ps[p].pid) && has_chain(
                ps,
                p,
                (d2 - 1) as nat,
            );
        assert(ps[p1].pid == ps[p2].pid);
        assert(p1 == p2);
        lemma_chain_unique(ps, p1, (d1 - 1) as nat, (d2 - 1) as nat);
    }
}

#[verifier::spinoff_prover]
#[verifier::rlimit(40)]
proof fn lemma_node_count(
    ps: Seq<ProcessInfo>,
    ex: Set<u32>,
    col: SortColumn,
    dir: SortDirection,
    i: usize,
    indent: usize,
    fuel: nat,
    x: int,
    d: nat,
)
    requires
        pids_distinct(ps),
        ps.len() <= usize::MAX,
        indent + fuel <= usize::MAX,
        i < ps.len(),
    ensures
        row_count(node_rows(ps, ex, col, dir, i, indent, fuel), x, d) <= 1,
        row_count(node_rows(ps, ex, col, dir, i, indent, fuel), x, d) > 0 ==> d >= indent && anc_is(
            ps,
            x,
            (d - indent) as nat,
            i as int,
        ),
    decreases fuel, 0nat,
{
    let pid = ps[i as int].pid;
    let kids0 = child_idx(ps, pid, ps.len());
    let kids = sort_idx(ps, kids0, col, dir);
    let hc = kids.len() > 0;
    let e = ex.contains(pid);
    let head = seq![(i, indent, e, hc)];
    let rows = node_rows(ps, ex, col, dir, i, indent, fuel);
    assert(head.drop_last() == Seq::<(usize, usize, bool, bool)>::empty());
    assert(row_count(head.drop_last(), x, d) == 0);
    assert(head.last() == (i, indent, e, hc));
    assert(row_count(head, x, d) == if i as int == x && indent as nat == d {
        1nat
    } else {
        0nat
    });
    if hc && e && fuel > 0 {
        let d1 = (indent + 1) as usize;
        let sub = list_rows(ps, ex, col, dir, kids, d1, (fuel - 1) as nat);
        assert(rows == head + sub);
        lemma_count_concat(head, sub, x, d);
        lemma_list_rows_nest(ps, ex, col, dir, kids, d1, (fuel - 1) as nat);
        if d == indent {
            assert forall|k: int| 0 <= k < sub.len() implies (#[trigger] sub[k]).1 > d by {}
            lemma_count_deeper(sub, x, d);
        } else {
            lemma_child_idx_distinct(ps, pid, ps.len());
            lemma_sort_idx_distinct(ps, kids0, col, dir);
            lemma_sort_idx_members(ps, kids0, col, dir);
            lemma_child_idx_parent(ps, pid, ps.len());
            assert forall|q: int| 0 <= q < kids.len() implies (#[trigger] kids[q]) < ps.len() by {
                assert(kids0.contains(kids[q]));
            }
            lemma_list_count(ps, ex, col, dir, kids, d1, (fuel - 1) as nat, x, d);
            if row_count(sub, x, d) > 0 {
                let q = choose|q: int|
                    0 <= q < kids.len() && anc_is(ps, x, (d - d1) as nat, #[trigger] kids[q] as int);
                assert(kids0.contains(kids[q]));
                let r = choose|r: int| 0 <= r < kids0.len() && kids0[r] == kids[q];
                assert(ps[kids0[r] as int].parent_pid == Some(pid));
                lemma_anc_extend(ps, x, (d - d1) as nat, kids[q] as int, i as int);
                assert((d - d1) as nat + 1 == (d - indent) as nat);
            }
        }
    } else {
        assert(rows == head);
    }
}

#[verifier::spinoff_prover]
#[verifier::rlimit(40)]
proof fn lemma_list_count(
    ps: Seq<ProcessInfo>,
    ex: Set<u32>,
    col: SortColumn,
    dir: SortDirection,
    idxs: Seq<usize>,
    indent: usize,
    fuel: nat,
    x: int,
    d: nat,
)
    requires
        pids_distinct(ps),
        ps.len() <= usize::MAX,
        indent + fuel <= usize::MAX,
        idxs.no_duplicates(),
        forall|q: int| 0 <= q < idxs.len() ==> (#[trigger] idxs[q]) < ps.len(),
    ensures
        row_count(list_rows(ps, ex, col, dir, idxs, indent, fuel), x, d) <= 1,
        row_count(list_rows(ps, ex, col, dir, idxs, indent, fuel), x, d) > 0 ==> d >= indent
            && exists|q: int|
            0 <= q < idxs.len() && anc_is(ps, x, (d - indent) as nat, #[trigger] idxs[q] as int),
    decreases fuel, idxs.len(),
{
    if idxs.len() > 0 {
        let front = idxs.drop_last();
        let l = idxs.len() - 1;
        assert forall|q: int| 0 <= q < front.len() implies (#[trigger] front[q]) < ps.len() by {
            assert(front[q] == idxs[q]);
        }
        assert(front.no_duplicates()) by {
            assert forall|a: int, b: int| 0 <= a < front.len() && 0 <= b < front.len() && a != b implies front[a]
                != front[b] by {
                assert(front[a] == idxs[a] && front[b] == idxs[b]);
            }
        }
        let a = list_rows(ps, ex, col, dir, front, indent, fuel);
        let b = node_rows(ps, ex, col, dir, idxs[l], indent, fuel);
        assert(idxs.last() == idxs[l]);
        lemma_count_concat(a, b, x, d);
        lemma_list_count(ps, ex, col, dir, front, indent, fuel, x, d);
        lemma_node_count(ps, ex, col, dir, idxs[l], indent, fuel, x, d);
        let m = (d - indent) as nat;
        if row_count(a, x, d) > 0 {
            let q = choose|q: int| 0 <= q < front.len() && anc_is(ps, x, m, #[trigger] front[q] as int);
            assert(front[q] == idxs[q]);
            if row_count(b, x, d) > 0 {
                lemma_anc_unique(ps, x, m, front[q] as int, idxs[l] as int);
                assert(idxs[q] == idxs[l]);
            }
        } else if row_count(b, x, d) > 0 {
            assert(anc_is(ps, x, m, idxs[l] as int));
        }
    }
}

/// The tree view shows no process twice: when pids are distinct, no two
/// rows show the same process. With `lemma_tree_depths` and
/// `lemma_tree_shows_expanded`, each process is shown exactly once when all
/// its ancestors are expanded (and not at all otherwise), at the depth of
/// its number of ancestors.
#[verifier::spinoff_prover]
#[verifier::rlimit(40)]
pub proof fn lemma_tree_once(ps: Seq<ProcessInfo>, ex: Set<u32>, col: SortColumn, dir: SortDirection)
    requires
        ps.len() <= usize::MAX,
        pids_distinct(ps),
    ensures
        forall|k1: int, k2: int|
            0 <= k1 < k2 < tree_rows(ps, ex, col, dir).len() ==> (#[trigger] tree_rows(
                ps,
                ex,
                col,
                dir,
            )[k1]).0 != (#[trigger] tree_rows(ps, ex, col, dir)[k2]).0,
{
    let n = ps.len();
    let roots0 = root_idx(ps, n);
    let roots = sort_idx(ps, roots0, col, dir);
    let rows = tree_rows(ps, ex, col, dir);
    lemma_root_idx_roots(ps, n);
    lemma_root_idx_distinct(ps, n);
    lemma_sort_idx_distinct(ps, roots0, col, dir);
    lemma_sort_idx_members(ps, roots0, col, dir);
    assert forall|q: int| 0 <= q < roots.len() implies (#[trigger] roots[q]) < ps.len() by {
        assert(roots0.contains(roots[q]));
    }
    lemma_tree_depths(ps, ex, col, dir);
    assert forall|k1: int, k2: int| 0 <= k1 < k2 < rows.len() implies (#[trigger] rows[k1]).0 != (
    #[trigger] rows[k2]).0 by {
        if rows[k1].0 == rows[k2].0 {
            let x = rows[k1].0 as int;
            lemma_chain_unique(ps, x, rows[k1].1 as nat, rows[k2].1 as nat);
            lemma_count_two(rows, x, rows[k1].1 as nat, k1, k2);
            lemma_list_count(ps, ex, col, dir, roots, 0, n, x, rows[k1].1 as nat);
        }
    }
}

pub open spec fn rows_in_range(rows: Seq<(usize, usize, bool, bool)>, n: nat) -> bool {
    forall|k: int| 0 <= k < rows.len() ==> #[trigger] rows[k].0 < n
}

fn child_indices(ps: &Vec<ProcessInfo>, pid: u32) -> (r: Vec<usize>)
    ensures
        r@ == child_idx(ps@, pid, ps@.len()),
        forall|k: int| 0 <= k < r@.len() ==> #[trigger] r@[k] < ps@.len(),
{
    let mut out: Vec<usize> = Vec::new();
    let mut i: usize = 0;
    while i < ps.len()
        invariant
            i <= ps@.len(),
            out@ == child_idx(ps@, pid, i as nat),
            forall|k: int| 0 <= k < out@.len() ==> #[trigger] out@[k] < i,
        decreases ps.len() - i,
    {
        if ps[i].parent_pid == Some(pid) {
            out.push(i);
        }
        i = i + 1;
    }
    out
}

fn pid_known(ps: &Vec<ProcessInfo>, pid: u32) -> (r: bool)
    ensures
        r == pid_present(ps@, pid),
{
    let mut i: usize = 0;
    while i < ps.len()
        invariant
            i <= ps@.len(),
            forall|k: int| 0 <= k < i ==> ps@[k].pid != pid,
        decreases ps.len() - i,
    {
        if ps[i].pid == pid {
            return true;
        }
        i = i + 1;
    }
    false
}

fn root_indices(ps: &Vec<ProcessInfo>) -> (r: Vec<usize>)
    ensures
        r@ == root_idx(ps@, ps@.len()),
        forall|k: int| 0 <= k < r@.len() ==> #[trigger] r@[k] < ps@.len(),
{
    let mut out: Vec<usize> = Vec::new();
    let mut i: usize = 0;
    while i < ps.len()
        invariant
            i <= ps@.len(),
            out@ == root_idx(ps@, i as nat),
            forall|k: int| 0 <= k < out@.len() ==> #[trigger] out@[k] < i,
        decreases ps.len() - i,
    {
        let root = match ps[i].parent_pid {
            None => true,
            Some(pp) => !pid_known(ps, pp),
        };
        if root {
            out.push(i);
        }
        i = i + 1;
    }
    out
}

fn add_node(
    ps: &Vec<ProcessInfo>,
    keys: &SortKeys,
    ex: &HashSet<u32>,
    col: SortColumn,
    dir: SortDirection,
    i: usize,
    indent: usize,
    fuel: usize,
    out: &mut Vec<(usize, usize, bool, bool)>,
)
    requires
        keys.fits(ps@),
        i < ps@.len(),
        indent + fuel <= ps@.len(),
        rows_in_range(old(out)@, ps@.len()),
    ensures
        final(out)@ == old(out)@ + node_rows(ps@, ex@, col, dir, i, indent, fuel as nat),
        rows_in_range(final(out)@, ps@.len()),
    decreases fuel, 0nat,
{
    let pid = ps[i].pid;
    let kids0 = child_indices(ps, pid);
    let kids = sort_indices(ps, keys, &kids0, col, dir);
    proof {
        lemma_sort_idx_members(ps@, kids0@, col, dir);
        lemma_sort_idx_len(ps@, kids0@, col, dir);
    }
    let hc = kids.len() > 0;
    let e = ex.contains(&pid);
    let ghost before = out@;
    out.push((i, indent, e, hc));
    let n = ps.len();
    if hc && e && fuel > 0 {
        assert(indent + 1 <= n);
        add_list(ps, keys, ex, col, dir, &kids, indent + 1, fuel - 1, out);
        assert(out@ =~= before + node_rows(ps@, ex@, col, dir, i, indent, fuel as nat));
    } else {
        assert(out@ =~= before + node_rows(ps@, ex@, col, dir, i, indent, fuel as nat));
    }
}

fn add_list(
    ps: &Vec<ProcessInfo>,
    keys: &SortKeys,
    ex: &HashSet<u32>,
    col: SortColumn,
    dir: SortDirection,
    idxs: &Vec<usize>,
    indent: usize,
    fuel: usize,
    out: &mut Vec<(usize, usize, bool, bool)>,
)
    requires
        keys.fits(ps@),
        forall|k: int| 0 <= k < idxs@.len() ==> #[trigger] idxs@[k] < ps@.len(),
        indent + fuel <= ps@.len(),
        rows_in_range(old(out)@, ps@.len()),
    ensures
        final(out)@ == old(out)@ + list_rows(ps@, ex@, col, dir, idxs@, indent, fuel as nat),
        rows_in_range(final(out)@, ps@.len()),
    decreases fuel, 1nat,
{
    let mut k: usize = 0;
    while k < idxs.len()
        invariant
            k <= idxs@.len(),
            keys.fits(ps@),
            forall|m: int| 0 <= m < idxs@.len() ==> #[trigger] idxs@[m] < ps@.len(),
            indent + fuel <= ps@.len(),
            out@ == old(out)@ + list_rows(ps@, ex@, col, dir, idxs@.take(k as int), indent, fuel as nat),
            rows_in_range(out@, ps@.len()),
        decreases idxs.len() - k,
    {
        let ghost before = out@;
        add_node(ps, keys, ex, col, dir, idxs[k], indent, fuel, out);
        proof {
            let t = idxs@.take(k + 1);
            assert(t.drop_last() == idxs@.take(k as int));
            assert(t.last() == idxs@[k as int]);
            assert(out@ =~= old(out)@ + list_rows(ps@, ex@, col, dir, t, indent, fuel as nat));
        }
        k = k + 1;
    }
    assert(idxs@.take(idxs@.len() as int) == idxs@);
}

/// Builds the rows of the process tree view: roots (processes without a
/// parent among `processes`) in sorted order, each followed by the rows of its
/// children when its pid is in `expanded_pids`, children sorted the same way;
/// then only the rows whose process matches `search_query` are kept. Each row
/// holds the process, its depth, whether it is expanded and whether it has
/// children.
#[verifier::spinoff_prover]
pub fn build_flat_tree(
    processes: &Vec<ProcessInfo>,
    expanded_pids: &HashSet<u32>,
    search_query: &str,
    sort_column: SortColumn,
    sort_direction: SortDirection,
) -> (r: Vec<(ProcessInfo, usize, bool, bool)>)
    ensures
        r@ == flat_tree_spec(processes@, expanded_pids@, search_query@, sort_column, sort_direction),
{
    let ps = processes;
    let keys = SortKeys::new(ps);
    let roots0 = root_indices(ps);
    let roots = sort_indices(ps, &keys, &roots0, sort_column, sort_direction);
    proof {
        lemma_sort_idx_members(ps@, roots0@, sort_column, sort_direction);
    }
    let mut rows: Vec<(usize, usize, bool, bool)> = Vec::new();
    add_list(ps, &keys, expanded_pids, sort_column, sort_direction, &roots, 0, ps.len(), &mut rows);
    assert(rows@ =~= tree_rows(ps@, expanded_pids@, sort_column, sort_direction));
    let q = Query::new(search_query);
    let ghost search = search_query@;
    let mut out: Vec<(ProcessInfo, usize, bool, bool)> = Vec::new();
    let mut k: usize = 0;
    while k < rows.len()
        invariant
            k <= rows@.len(),
            keys.fits(ps@),
            q.of(search),
            rows_in_range(rows@, ps@.len()),
            out@ == filter_rows(ps@, rows@.take(k as int), search).map_values(
                |r: (usize, usize, bool, bool)| (ps@[r.0 as int], r.1, r.2, r.3),
            ),
        decreases rows.len() - k,
    {
        let row = rows[k];
        let ghost t = rows@.take(k + 1);
        assert(t.drop_last() == rows@.take(k as int));
        assert(t.last() == row);
        assert(row.0 < ps@.len());
        if matches_at(ps, &keys, row.0, &q, Ghost(search)) {
            let ghost before = out@;
            out.push((ps[row.0].copied(), row.1, row.2, row.3));
            assert(out@ =~= filter_rows(ps@, t, search).map_values(
                |r: (usize, usize, bool, bool)| (ps@[r.0 as int], r.1, r.2, r.3),
            ));
        }
        k = k + 1;
    }
    assert(rows@.take(rows@.len() as int) == rows@);
    out
}

} // verus!
