//! Which processes hold a file or a directory open: matching the targets of
//! the descriptors under `/proc/<pid>/fd/` against a path, and naming the
//! owners from `/etc/passwd`. The caller walks `/proc` and reads the files;
//! this module works on what was read.
use vstd::prelude::*;

use crate::netconn::{pid_of_entry, process_name_of, u32_max};
use crate::num;
use crate::paths::{path_starts_with, starts_with_path};
use crate::text;
use crate::text::{chars_of, string_of};

verus! {

broadcast use vstd::seq_lib::group_seq_properties;

/// A process that holds a file open.
pub struct FileLockInfo {
    /// Id of the process holding the descriptor.
    pub pid: u32,
    /// Name of the process.
    pub process_name: String,
    /// Name of the user running the process.
    pub username: String,
    /// The opened path that matched (helps when a directory was searched).
    pub open_path: String,
}

pub struct LockView {
    pub pid: u32,
    pub process_name: Seq<char>,
    pub username: Seq<char>,
    pub open_path: Seq<char>,
}

impl View for FileLockInfo {
    type V = LockView;

    open spec fn view(&self) -> LockView {
        LockView {
            pid: self.pid,
            process_name: self.process_name@,
            username: self.username@,
            open_path: self.open_path@,
        }
    }
}

pub open spec fn lock_views(v: Seq<FileLockInfo>) -> Seq<LockView> {
    v.map_values(|l: FileLockInfo| l@)
}

// ---------------------------------------------------------------------------
// User names
// ---------------------------------------------------------------------------

/// The user name that the lines of a passwd file give to `uid`: the first
/// field of the first line with at least three `:`-separated fields whose
/// third field reads as `uid`.
pub open spec fn passwd_name(ls: Seq<Seq<char>>, uid: u32) -> Option<Seq<char>>
    decreases ls.len(),
{
    if ls.len() == 0 {
        None
    } else {
        let parts = text::split(ls[0], ':');
        if parts.len() >= 3 && num::parse_uint_spec(parts[2], 10, u32_max()) == Some(uid as nat) {
            Some(parts[0])
        } else {
            passwd_name(ls.drop_first(), uid)
        }
    }
}

/// The name shown for the owner `uid`: its name in the passwd file when the
/// file was read and names it, else the number itself.
pub open spec fn username_spec(passwd: Option<Seq<char>>, uid: u32) -> Seq<char> {
    match passwd {
        Some(p) => match passwd_name(text::lines(p), uid) {
            Some(n) => n,
            None => num::dec(uid as nat),
        },
        None => num::dec(uid as nat),
    }
}

/// Line `l` of a passwd file gives user id `uid`: its third `:`-separated
/// field is the decimal `uid`.
pub open spec fn line_has_uid(l: Seq<char>, uid: u32) -> bool {
    let f = text::split(l, ':');
    f.len() >= 3 && num::parse_uint_spec(f[2], 10, u32_max()) == Some(uid as nat)
}

/// The user name of a uid is read from the passwd file by the uid field:
/// when line `k` is the first line whose third field is `uid`, the name
/// is that line's first field, whatever its other fields (such as the group
/// id) hold; when no line has the uid, the name is the decimal uid.
pub proof fn lemma_username_by_uid_field(passwd: Seq<char>, uid: u32, k: int)
    ensures
        0 <= k < text::lines(passwd).len() && line_has_uid(text::lines(passwd)[k], uid) && (forall|
            j: int,
        | 0 <= j < k ==> !line_has_uid(#[trigger] text::lines(passwd)[j], uid)) ==> username_spec(
            Some(passwd),
            uid,
        ) == text::split(text::lines(passwd)[k], ':')[0],
        (forall|j: int|
            0 <= j < text::lines(passwd).len() ==> !line_has_uid(#[trigger] text::lines(passwd)[j], uid))
            ==> username_spec(Some(passwd), uid) == num::dec(uid as nat),
{
    let ls = text::lines(passwd);
    if 0 <= k < ls.len() && line_has_uid(ls[k], uid) && (forall|j: int|
        0 <= j < k ==> !line_has_uid(#[trigger] ls[j], uid)) {
        lemma_passwd_first(ls, uid, k);
    }
    if forall|j: int| 0 <= j < ls.len() ==> !line_has_uid(#[trigger] ls[j], uid) {
        lemma_passwd_none(ls, uid);
    }
}

proof fn lemma_passwd_first(ls: Seq<Seq<char>>, uid: u32, k: int)
    requires
        0 <= k < ls.len(),
        line_has_uid(ls[k], uid),
        forall|j: int| 0 <= j < k ==> !line_has_uid(#[trigger] ls[j], uid),
    ensures
        passwd_name(ls, uid) == Some(text::split(ls[k], ':')[0]),
    decreases k,
{
    if k > 0 {
        let t = ls.drop_first();
        assert(!line_has_uid(ls[0], uid));
        assert forall|j: int| 0 <= j < k - 1 implies !line_has_uid(#[trigger] t[j], uid) by {
            assert(t[j] == ls[j + 1]);
        }
        assert(t[k - 1] == ls[k]);
        lemma_passwd_first(t, uid, k - 1);
    }
}

proof fn lemma_passwd_none(ls: Seq<Seq<char>>, uid: u32)
    requires
        forall|j: int| 0 <= j < ls.len() ==> !line_has_uid(#[trigger] ls[j], uid),
    ensures
        passwd_name(ls, uid) is None,
    decreases ls.len(),
{
    if ls.len() > 0 {
        let t = ls.drop_first();
        assert(!line_has_uid(ls[0], uid));
        assert forall|j: int| 0 <= j < t.len() implies !line_has_uid(#[trigger] t[j], uid) by {
            assert(t[j] == ls[j + 1]);
        }
        lemma_passwd_none(t, uid);
    }
}

/// Maps `uid` to a user name, given the text of `/etc/passwd` (`None` when
/// it could not be read); falls back to the decimal uid.
pub fn resolve_username_from_uid(passwd: Option<&str>, uid: u32) -> (r: String)
    ensures
        r@ == username_spec(text::opt_str(passwd), uid),
{
    match passwd {
        Some(p) => {
            let v = chars_of(p);
            let ls = text::split_lines(&v);
            let ghost lv = text::views(ls@);
            let mut i: usize = 0;
            while i < ls.len()
                invariant
                    i <= ls@.len(),
                    lv == text::views(ls@),
                    lv == text::lines(p@),
                    text::opt_str(passwd) == Some(p@),
                    passwd_name(lv, uid) == passwd_name(lv.skip(i as int), uid),
                decreases ls.len() - i,
            {
                let parts = text::split_char(&ls[i], ':');
                assert(lv.skip(i as int)[0] == ls@[i as int]@);
                if parts.len() >= 3 {
                    let n = pid_of_entry(string_of(&parts[2]).as_str());
                    if n == Some(uid) {
                        let ghost sp = text::split(lv.skip(i as int)[0], ':');
                        assert(sp == text::views(parts@));
                        assert(sp[2] == parts@[2]@);
                        assert(sp[0] == parts@[0]@);
                        assert(passwd_name(lv.skip(i as int), uid) == Some(sp[0]));
                        assert(passwd_name(text::lines(p@), uid) == Some(sp[0]));
                        assert(username_spec(Some(p@), uid) == sp[0]);
                        assert(text::opt_str(passwd) == Some(p@));
                        let name = string_of(&parts[0]);
                        assert(name@ == sp[0]);
                        return name;
                    }
                }
                assert(lv.skip(i as int).drop_first() == lv.skip(i + 1));
                i = i + 1;
            }
            let mut d: Vec<char> = Vec::new();
            num::push_dec(&mut d, uid as u128);
            string_of(&d)
        },
        None => {
            let mut d: Vec<char> = Vec::new();
            num::push_dec(&mut d, uid as u128);
            string_of(&d)
        },
    }
}

// ---------------------------------------------------------------------------
// Scanning the processes
// ---------------------------------------------------------------------------

/// What was read for one entry of `/proc`.
pub struct ProcEntry {
    /// The entry's file name; only numeric names are processes.
    pub name: String,
    /// The resolved targets of its descriptors (canonical where they could be
    /// canonicalized), in directory order; `None` when `fd/` could not be read.
    pub fd_targets: Option<Vec<String>>,
    /// Owner uid of the entry, when its metadata could be read.
    pub owner_uid: Option<u32>,
    /// Text of its `comm` file, when it could be read.
    pub comm: Option<String>,
}

/// Index of the first descriptor target within `target` (the number of
/// targets when there is none).
pub open spec fn first_match(ts: Seq<Seq<char>>, target: Seq<char>) -> nat
    decreases ts.len(),
{
    if ts.len() == 0 {
        0
    } else if path_starts_with(ts[0], target) {
        0
    } else {
        1 + first_match(ts.drop_first(), target)
    }
}

pub open spec fn string_views(v: Seq<String>) -> Seq<Seq<char>> {
    v.map_values(|s: String| s@)
}

/// The lock that one `/proc` entry contributes: none unless its name is a
/// pid and its descriptors were read and one of them lies within `target`;
/// then the first such descriptor, with the process name and owner.
pub open spec fn entry_lock(e: ProcEntry, target: Seq<char>, passwd: Option<Seq<char>>) -> Option<LockView> {
    match num::parse_uint_spec(e.name@, 10, u32_max()) {
        None => None,
        Some(pid) => match e.fd_targets {
            None => None,
            Some(fds) => {
                let ts = string_views(fds@);
                let k = first_match(ts, target);
                if k < ts.len() {
                    Some(
                        LockView {
                            pid: pid as u32,
                            process_name: match e.comm {
                                Some(c) => text::trim(c@),
                                None => "Unknown"@,
                            },
                            username: match e.owner_uid {
                                Some(u) => username_spec(passwd, u),
                                None => "Unknown"@,
                            },
                            open_path: ts[k as int],
                        },
                    )
                } else {
                    None
                }
            },
        },
    }
}

/// The locks of the first `n` entries, in order.
pub open spec fn locks_spec(es: Seq<ProcEntry>, target: Seq<char>, passwd: Option<Seq<char>>, n: nat) -> Seq<
    LockView,
>
    decreases n,
{
    if n == 0 {
        seq![]
    } else {
        let rest = locks_spec(es, target, passwd, (n - 1) as nat);
        match entry_lock(es[n - 1], target, passwd) {
            Some(l) => rest.push(l),
            None => rest,
        }
    }
}

proof fn lemma_first_match(ts: Seq<Seq<char>>, target: Seq<char>)
    ensures
        first_match(ts, target) <= ts.len(),
        first_match(ts, target) < ts.len() ==> path_starts_with(
            ts[first_match(ts, target) as int],
            target,
        ),
        forall|j: int| 0 <= j < first_match(ts, target) ==> !path_starts_with(#[trigger] ts[j], target),
    decreases ts.len(),
{
    if ts.len() > 0 && !path_starts_with(ts[0], target) {
        lemma_first_match(ts.drop_first(), target);
        let k = first_match(ts, target) as int;
        if k < ts.len() {
            assert(ts[k] == ts.drop_first()[k - 1]);
        }
        assert forall|j: int| 0 <= j < k implies !path_starts_with(#[trigger] ts[j], target) by {
            if j > 0 {
                assert(ts[j] == ts.drop_first()[j - 1]);
            }
        }
    }
}

/// Every reported lock is on the searched path itself or on a path within
/// it, held by the process of a numeric `/proc` entry, and no entry reports
/// more than one lock.
pub proof fn lemma_locks_within_target(
    es: Seq<ProcEntry>,
    target: Seq<char>,
    passwd: Option<Seq<char>>,
    n: nat,
)
    requires
        n <= es.len(),
    ensures
        locks_spec(es, target, passwd, n).len() <= n,
        forall|k: int|
            0 <= k < locks_spec(es, target, passwd, n).len() ==> path_starts_with(
                (#[trigger] locks_spec(es, target, passwd, n)[k]).open_path,
                target,
            ),
    decreases n,
{
    if n > 0 {
        lemma_locks_within_target(es, target, passwd, (n - 1) as nat);
        let rest = locks_spec(es, target, passwd, (n - 1) as nat);
        let all = locks_spec(es, target, passwd, n);
        let e = es[n - 1];
        match e.fd_targets {
            Some(fds) => {
                lemma_first_match(string_views(fds@), target);
            },
            None => {},
        }
        assert forall|k: int| 0 <= k < all.len() implies path_starts_with(
            (#[trigger] all[k]).open_path,
            target,
        ) by {
            if k < rest.len() {
                assert(all[k] == rest[k]);
            }
        }
    }
}

fn first_matching_fd(ts: &Vec<String>, target: &str) -> (r: usize)
    ensures
        r == first_match(string_views(ts@), target@),
        r <= ts@.len(),
{
    let ghost tv = string_views(ts@);
    let mut i: usize = 0;
    while i < ts.len()
        invariant
            i <= ts@.len(),
            tv == string_views(ts@),
            first_match(tv, target@) == i + first_match(tv.skip(i as int), target@),
        decreases ts.len() - i,
    {
        assert(tv.skip(i as int)[0] == ts@[i as int]@);
        if starts_with_path(ts[i].as_str(), target) {
            return i;
        }
        assert(tv.skip(i as int).drop_first() == tv.skip(i + 1));
        i = i + 1;
    }
    assert(tv.skip(i as int).len() == 0);
    i
}

fn lock_of_entry(e: &ProcEntry, target: &str, passwd: Option<&str>) -> (r: Option<FileLockInfo>)
    ensures
        match r {
            Some(l) => entry_lock(*e, target@, text::opt_str(passwd)) == Some(l@),
            None => entry_lock(*e, target@, text::opt_str(passwd)) is None,
        },
{
    let pid = match pid_of_entry(e.name.as_str()) {
        Some(p) => p,
        None => return None,
    };
    let fds = match &e.fd_targets {
        Some(f) => f,
        None => return None,
    };
    let k = first_matching_fd(fds, target);
    if k == fds.len() {
        return None;
    }
    let username = match e.owner_uid {
        Some(u) => resolve_username_from_uid(passwd, u),
        None => String::from_str("Unknown"),
    };
    let process_name = match &e.comm {
        Some(c) => process_name_of(Some(c.as_str())),
        None => process_name_of(None),
    };
    Some(FileLockInfo { pid, process_name, username, open_path: fds[k].clone() })
}

/// The processes holding `target` (canonicalized by the caller where
/// possible) open, from what was read of each `/proc` entry and the text of
/// `/etc/passwd`: one record per process, for its first descriptor whose
/// target is `target` or lies within it.
pub fn find_locking_processes(target: &str, entries: &Vec<ProcEntry>, passwd: Option<&str>) -> (r: Vec<
    FileLockInfo,
>)
    ensures
        lock_views(r@) == locks_spec(entries@, target@, text::opt_str(passwd), entries@.len()),
{
    let ghost pw = text::opt_str(passwd);
    let mut locks: Vec<FileLockInfo> = Vec::new();
    let mut i: usize = 0;
    while i < entries.len()
        invariant
            i <= entries@.len(),
            pw == text::opt_str(passwd),
            lock_views(locks@) == locks_spec(entries@, target@, pw, i as nat),
        decreases entries.len() - i,
    {
        match lock_of_entry(&entries[i], target, passwd) {
            Some(l) => {
                locks.push(l);
                assert(lock_views(locks@) =~= locks_spec(entries@, target@, pw, (i + 1) as nat));
            },
            None => {},
        }
        i = i + 1;
    }
    locks
}

} // verus!
