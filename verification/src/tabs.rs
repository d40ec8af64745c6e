//! State of the tabs of the task manager window, without the drawing: what
//! each tab keeps between frames and how clicks, typed text and the results
//! of background work change it.
use std::collections::HashSet;
use vstd::prelude::*;

use crate::backend::{PlatformInfo, SessionEnv};
use crate::filelock::{FileLockInfo, lock_views};
use crate::localization::Language;
use crate::netconn::{NetworkConnection, ConnView};
use crate::num;
use crate::startup::StartupApp;
use crate::systemd::{ServiceInfo, service_views};
use crate::process::{build_flat_tree, process_list, ProcessInfo, SortColumn, SortDirection};
use crate::process;
use crate::text;
use crate::text::{chars_of, push_str, string_of};

verus! {

broadcast use vstd::seq_lib::group_seq_properties, vstd::std_specs::hash::group_hash_axioms;

/// Decimal text of a number appended to `out`.
fn push_number(out: &mut Vec<char>, n: u64)
    ensures
        final(out)@ == old(out)@ + num::dec(n as nat),
{
    num::push_dec(out, n as u128);
}

// ---------------------------------------------------------------------------
// Processes tab
// ---------------------------------------------------------------------------

/// What the processes tab keeps between frames.
pub struct ProcessesTab {
    pub search_query: String,
    pub selected_pid: Option<u32>,
    pub sort_column: SortColumn,
    pub sort_direction: SortDirection,
    pub kill_error: Option<String>,
    pub kill_success: Option<String>,
    /// The filtered and sorted list last built.
    pub cached_list: Vec<ProcessInfo>,
    /// Stamp of the system snapshot that the cached lists were built from.
    pub last_state_update: Option<u64>,
    pub last_query: String,
    pub last_sort_col: SortColumn,
    pub last_sort_dir: SortDirection,
    /// The process whose properties window is open.
    pub show_properties: Option<ProcessInfo>,
    pub tree_view: bool,
    pub expanded_pids: HashSet<u32>,
    /// The tree rows last built: process, depth, expanded, has children.
    pub cached_tree_list: Vec<(ProcessInfo, usize, bool, bool)>,
    pub last_tree_view: bool,
}

impl ProcessesTab {
    /// An empty tab ordered by CPU usage, highest first, with pid 1 expanded
    /// in the tree view.
    pub fn new() -> (r: ProcessesTab)
        ensures
            r.search_query@ == Seq::<char>::empty(),
            r.selected_pid is None,
            r.sort_column == SortColumn::Cpu,
            r.sort_direction == SortDirection::Descending,
            r.kill_error is None,
            r.kill_success is None,
            r.cached_list@.len() == 0,
            r.last_state_update is None,
            r.last_query@ == Seq::<char>::empty(),
            r.last_sort_col == SortColumn::Cpu,
            r.last_sort_dir == SortDirection::Descending,
            r.show_properties is None,
            !r.tree_view,
            r.expanded_pids@ == set![1u32],
            r.cached_tree_list@.len() == 0,
            !r.last_tree_view,
    {
        let mut expanded_pids: HashSet<u32> = HashSet::new();
        expanded_pids.insert(1);
        assert(expanded_pids@ =~= set![1u32]);
        ProcessesTab {
            search_query: String::new(),
            selected_pid: None,
            sort_column: SortColumn::Cpu,
            sort_direction: SortDirection::Descending,
            kill_error: None,
            kill_success: None,
            cached_list: Vec::new(),
            last_state_update: None,
            last_query: String::new(),
            last_sort_col: SortColumn::Cpu,
            last_sort_dir: SortDirection::Descending,
            show_properties: None,
            tree_view: false,
            expanded_pids,
            cached_tree_list: Vec::new(),
            last_tree_view: false,
        }
    }

    /// Whether the cached lists are stale for the snapshot with stamp
    /// `stamp`: another snapshot, or the query, the order or the view mode
    /// changed since they were built.
    pub fn cache_needs_update(&self, stamp: u64) -> (r: bool)
        ensures
            r == self.cache_needs_update_spec(stamp),
    {
        let same_stamp = match self.last_state_update {
            Some(s) => s == stamp,
            None => false,
        };
        !same_stamp || self.last_query != self.search_query || self.last_sort_col
            != self.sort_column || self.last_sort_dir != self.sort_direction
            || self.last_tree_view != self.tree_view
    }

    /// Rebuilds the cached lists from `processes` (snapshot `stamp`) when
    /// they are stale: the flat list is the processes matching the query,
    /// sorted; in tree view the tree rows are rebuilt too. Then the cache
    /// remembers what it was built from.
    pub fn refresh(&mut self, processes: &Vec<ProcessInfo>, stamp: u64)
        ensures
            final(self).search_query == old(self).search_query,
            final(self).selected_pid == old(self).selected_pid,
            final(self).sort_column == old(self).sort_column,
            final(self).sort_direction == old(self).sort_direction,
            final(self).kill_error == old(self).kill_error,
            final(self).kill_success == old(self).kill_success,
            final(self).show_properties == old(self).show_properties,
            final(self).tree_view == old(self).tree_view,
            final(self).expanded_pids@ == old(self).expanded_pids@,
            old(self).cache_needs_update_spec(stamp) ==> {
                &&& final(self).cached_list@ == process::pick(
                    processes@,
                    process::sort_idx(
                        processes@,
                        process::matching_idx(processes@, old(self).search_query@, processes@.len()),
                        old(self).sort_column,
                        old(self).sort_direction,
                    ),
                )
                &&& final(self).cached_tree_list@ == if old(self).tree_view {
                    process::flat_tree_spec(
                        processes@,
                        old(self).expanded_pids@,
                        old(self).search_query@,
                        old(self).sort_column,
                        old(self).sort_direction,
                    )
                } else {
                    old(self).cached_tree_list@
                }
                &&& final(self).last_state_update == Some(stamp)
                &&& final(self).last_query@ == old(self).search_query@
                &&& final(self).last_sort_col == old(self).sort_column
                &&& final(self).last_sort_dir == old(self).sort_direction
                &&& final(self).last_tree_view == old(self).tree_view
            },
            !old(self).cache_needs_update_spec(stamp) ==> *final(self) == *old(self),
    {
        if self.cache_needs_update(stamp) {
            self.cached_list = process_list(
                processes,
                self.search_query.as_str(),
                self.sort_column,
                self.sort_direction,
            );
            if self.tree_view {
                self.cached_tree_list = build_flat_tree(
                    processes,
                    &self.expanded_pids,
                    self.search_query.as_str(),
                    self.sort_column,
                    self.sort_direction,
                );
            }
            self.last_state_update = Some(stamp);
            self.last_query = self.search_query.clone();
            self.last_sort_col = self.sort_column;
            self.last_sort_dir = self.sort_direction;
            self.last_tree_view = self.tree_view;
        }
    }

    pub open spec fn cache_needs_update_spec(&self, stamp: u64) -> bool {
        self.last_state_update != Some(stamp) || self.last_query@ != self.search_query@
            || self.last_sort_col != self.sort_column || self.last_sort_dir != self.sort_direction
            || self.last_tree_view != self.tree_view
    }
}


impl ProcessesTab {
    /// A background action finished: its message becomes the success or the
    /// error banner (the other one is cleared); success also clears the
    /// selection.
    pub fn apply_action_result(&mut self, result: Result<String, String>)
        ensures
            match result {
                Ok(m) => final(self).kill_success == Some(m) && final(self).kill_error is None
                    && final(self).selected_pid is None,
                Err(e) => final(self).kill_error == Some(e) && final(self).kill_success is None
                    && final(self).selected_pid == old(self).selected_pid,
            },
            final(self).search_query == old(self).search_query,
            final(self).cached_list == old(self).cached_list,
            final(self).tree_view == old(self).tree_view,
            final(self).sort_column == old(self).sort_column,
            final(self).sort_direction == old(self).sort_direction,
    {
        match result {
            Ok(m) => {
                self.kill_success = Some(m);
                self.kill_error = None;
                self.selected_pid = None;
            },
            Err(e) => {
                self.kill_error = Some(e);
                self.kill_success = None;
            },
        }
    }

    /// The search text was edited: the selection is cleared.
    pub fn search_changed(&mut self)
        ensures
            *final(self) == (ProcessesTab { selected_pid: None, ..*old(self) }),
    {
        self.selected_pid = None;
    }

    /// The tree view check box was toggled: the cache is marked stale.
    pub fn tree_view_toggled(&mut self)
        ensures
            *final(self) == (ProcessesTab { last_state_update: None, ..*old(self) }),
    {
        self.last_state_update = None;
    }

    /// A row was clicked: it is deselected if it was the selected one,
    /// selected otherwise.
    pub fn click_row(&mut self, pid: u32)
        ensures
            final(self).selected_pid == (if old(self).selected_pid == Some(pid) {
                None
            } else {
                Some(pid)
            }),
            *final(self) == (ProcessesTab { selected_pid: final(self).selected_pid, ..*old(self) }),
    {
        if self.selected_pid == Some(pid) {
            self.selected_pid = None;
        } else {
            self.selected_pid = Some(pid);
        }
    }

    /// A column header was clicked: the same column flips the direction,
    /// another column becomes the sort column, highest first.
    pub fn click_column(&mut self, col: SortColumn)
        ensures
            old(self).sort_column == col ==> final(self).sort_column == col
                && final(self).sort_direction == (if old(self).sort_direction
                == SortDirection::Ascending {
                SortDirection::Descending
            } else {
                SortDirection::Ascending
            }),
            old(self).sort_column != col ==> final(self).sort_column == col
                && final(self).sort_direction == SortDirection::Descending,
            *final(self) == (ProcessesTab {
                sort_column: final(self).sort_column,
                sort_direction: final(self).sort_direction,
                ..*old(self)
            }),
    {
        if self.sort_column == col {
            self.sort_direction = if self.sort_direction == SortDirection::Ascending {
                SortDirection::Descending
            } else {
                SortDirection::Ascending
            };
        } else {
            self.sort_column = col;
            self.sort_direction = SortDirection::Descending;
        }
    }

    /// The expand arrow of `pid` was clicked while the row showed `expanded`:
    /// the pid is removed from the expanded set if it was expanded, added
    /// otherwise, and the tree rows are rebuilt from `processes`.
    pub fn toggle_expanded(&mut self, pid: u32, expanded: bool, processes: &Vec<ProcessInfo>)
        ensures
            final(self).expanded_pids@ == (if expanded {
                old(self).expanded_pids@.remove(pid)
            } else {
                old(self).expanded_pids@.insert(pid)
            }),
            final(self).cached_tree_list@ == process::flat_tree_spec(
                processes@,
                final(self).expanded_pids@,
                old(self).search_query@,
                old(self).sort_column,
                old(self).sort_direction,
            ),
            final(self).search_query == old(self).search_query,
            final(self).selected_pid == old(self).selected_pid,
            final(self).sort_column == old(self).sort_column,
            final(self).sort_direction == old(self).sort_direction,
            final(self).cached_list == old(self).cached_list,
            final(self).tree_view == old(self).tree_view,
    {
        if expanded {
            self.expanded_pids.remove(&pid);
        } else {
            self.expanded_pids.insert(pid);
        }
        self.cached_tree_list = build_flat_tree(
            processes,
            &self.expanded_pids,
            self.search_query.as_str(),
            self.sort_column,
            self.sort_direction,
        );
    }

    /// The End Task button sent a termination signal to `pid` with this
    /// result: success clears the selection and reports the pid; failure
    /// reports the pid and the error.
    pub fn end_task_result(&mut self, pid: u32, result: Result<(), String>)
        ensures
            match result {
                Ok(_) => text::opt_chars(final(self).kill_success) == Some(end_task_sent(pid))
                    && final(self).kill_error is None && final(self).selected_pid is None,
                Err(e) => text::opt_chars(final(self).kill_error) == Some(end_task_failed(pid, e))
                    && final(self).kill_success is None
                    && final(self).selected_pid == old(self).selected_pid,
            },
            final(self).search_query == old(self).search_query,
            final(self).cached_list == old(self).cached_list,
    {
        match result {
            Ok(_) => {
                let mut v: Vec<char> = Vec::new();
                push_str(&mut v, "Sent termination signal to PID ");
                push_number(&mut v, pid as u64);
                self.kill_success = Some(string_of(&v));
                self.kill_error = None;
                self.selected_pid = None;
            },
            Err(e) => {
                let mut v: Vec<char> = Vec::new();
                push_str(&mut v, "Failed to kill PID ");
                push_number(&mut v, pid as u64);
                push_str(&mut v, ": ");
                push_str(&mut v, e.as_str());
                self.kill_error = Some(string_of(&v));
                self.kill_success = None;
            },
        }
    }

    /// The Terminate entry of a row's menu sent a termination signal to
    /// process `name` (`pid`) with this result.
    pub fn menu_kill_result(&mut self, name: &str, pid: u32, result: Result<(), String>)
        ensures
            match result {
                Ok(_) => text::opt_chars(final(self).kill_success) == Some(menu_kill_sent(name@, pid))
                    && final(self).kill_error is None && final(self).selected_pid is None,
                Err(e) => text::opt_chars(final(self).kill_error) == Some(menu_kill_failed(name@, e))
                    && final(self).kill_success is None
                    && final(self).selected_pid == old(self).selected_pid,
            },
            final(self).search_query == old(self).search_query,
            final(self).cached_list == old(self).cached_list,
    {
        match result {
            Ok(_) => {
                let mut v: Vec<char> = Vec::new();
                push_str(&mut v, name);
                push_str(&mut v, " (PID ");
                push_number(&mut v, pid as u64);
                push_str(&mut v, ") işlemine sonlandırma sinyali gönderildi.");
                self.kill_success = Some(string_of(&v));
                self.kill_error = None;
                self.selected_pid = None;
            },
            Err(e) => {
                let mut v: Vec<char> = Vec::new();
                push_str(&mut v, name);
                push_str(&mut v, " sonlandırılamadı: ");
                push_str(&mut v, e.as_str());
                self.kill_error = Some(string_of(&v));
                self.kill_success = None;
            },
        }
    }

    /// The Properties entry of a row's menu was chosen.
    pub fn open_properties(&mut self, p: ProcessInfo)
        ensures
            *final(self) == (ProcessesTab { show_properties: Some(p), ..*old(self) }),
    {
        self.show_properties = Some(p);
    }

    /// The properties window was closed.
    pub fn close_properties(&mut self)
        ensures
            *final(self) == (ProcessesTab { show_properties: None, ..*old(self) }),
    {
        self.show_properties = None;
    }
}

/// The symbol drawn for a process without an icon file, chosen from words
/// in its lowercase name.
pub open spec fn process_icon_spec(lower: Seq<char>) -> Seq<char> {
    let has = |p: Seq<char>| text::has_sub(lower, p);
    if has("firefox"@) {
        "🦊"@
    } else if has("chrome"@) || has("chromium"@) {
        "🌐"@
    } else if has("code"@) || has("cursor"@) || has("vscode"@) {
        "💻"@
    } else if has("discord"@) {
        "💬"@
    } else if has("steam"@) {
        "🎮"@
    } else if has("spotify"@) {
        "🎵"@
    } else if has("bash"@) || has("zsh"@) || has("fish"@) || has("sh"@) {
        "🐚"@
    } else if has("cargo"@) || has("rust"@) {
        "🦀"@
    } else if has("python"@) {
        "🐍"@
    } else if has("docker"@) {
        "🐳"@
    } else if has("git"@) {
        "🐙"@
    } else if has("slack"@) {
        "💬"@
    } else if has("kitty"@) || has("alacritty"@) || has("terminal"@) {
        "📟"@
    } else if has("systemd"@) || has("kthreadd"@) || has("udevd"@) || has("dbus"@) {
        "⚙"@
    } else if has("ae_taskmanager"@) || has("taskmanager"@) {
        "📊"@
    } else {
        "📦"@
    }
}

fn name_has(lower: &Vec<char>, p: &str) -> (r: bool)
    ensures
        r == text::has_sub(lower@, p@),
{
    text::contains(lower, &chars_of(p))
}

/// The symbol drawn for process `name` when it has no icon file.
pub fn get_process_icon(name: &str) -> (r: &'static str)
    ensures
        r@ == process_icon_spec(text::lower_text(name@)),
{
    let low = text::to_lower(name);
    process_icon_for_lowercase(low.as_str())
}

/// The symbol for a process whose name, in lowercase, is `lower`.
pub fn process_icon_for_lowercase(lower: &str) -> (r: &'static str)
    ensures
        r@ == process_icon_spec(lower@),
{
    let l = chars_of(lower);
    if name_has(&l, "firefox") {
        "🦊"
    } else if name_has(&l, "chrome") || name_has(&l, "chromium") {
        "🌐"
    } else if name_has(&l, "code") || name_has(&l, "cursor") || name_has(&l, "vscode") {
        "💻"
    } else if name_has(&l, "discord") {
        "💬"
    } else if name_has(&l, "steam") {
        "🎮"
    } else if name_has(&l, "spotify") {
        "🎵"
    } else if name_has(&l, "bash") || name_has(&l, "zsh") || name_has(&l, "fish") || name_has(
        &l,
        "sh",
    ) {
        "🐚"
    } else if name_has(&l, "cargo") || name_has(&l, "rust") {
        "🦀"
    } else if name_has(&l, "python") {
        "🐍"
    } else if name_has(&l, "docker") {
        "🐳"
    } else if name_has(&l, "git") {
        "🐙"
    } else if name_has(&l, "slack") {
        "💬"
    } else if name_has(&l, "kitty") || name_has(&l, "alacritty") || name_has(&l, "terminal") {
        "📟"
    } else if name_has(&l, "systemd") || name_has(&l, "kthreadd") || name_has(&l, "udevd")
        || name_has(&l, "dbus") {
        "⚙"
    } else if name_has(&l, "ae_taskmanager") || name_has(&l, "taskmanager") {
        "📊"
    } else {
        "📦"
    }
}

/// The text of a column header: the column name, with `  ▼` or `  ▲` when the
/// table is ordered by it (descending or ascending).
pub fn header_label(name: &str, active: bool, dir: SortDirection) -> (r: String)
    ensures
        r@ == name@ + if active {
            if dir == SortDirection::Descending {
                "  ▼"@
            } else {
                "  ▲"@
            }
        } else {
            Seq::<char>::empty()
        },
{
    let mut v: Vec<char> = Vec::new();
    push_str(&mut v, name);
    if active {
        if dir == SortDirection::Descending {
            push_str(&mut v, "  ▼");
        } else {
            push_str(&mut v, "  ▲");
        }
    }
    assert(v@ =~= name@ + if active {
        if dir == SortDirection::Descending {
            "  ▼"@
        } else {
            "  ▲"@
        }
    } else {
        Seq::<char>::empty()
    });
    string_of(&v)
}

/// The parent pid shown in the properties window: the number, or
/// "Yok (None)" for a process without a parent.
pub fn parent_label(parent: Option<u32>) -> (r: String)
    ensures
        r@ == match parent {
            Some(p) => num::dec(p as nat),
            None => "Yok (None)"@,
        },
{
    match parent {
        Some(p) => {
            let mut v: Vec<char> = Vec::new();
            push_number(&mut v, p as u64);
            string_of(&v)
        },
        None => String::from_str("Yok (None)"),
    }
}

/// The web search opened for a process name.
pub fn web_search_url(name: &str) -> (r: String)
    ensures
        r@ == "https://www.google.com/search?q="@ + name@ + " Linux process"@,
{
    let mut v: Vec<char> = Vec::new();
    push_str(&mut v, "https://www.google.com/search?q=");
    push_str(&mut v, name);
    push_str(&mut v, " Linux process");
    string_of(&v)
}

pub open spec fn end_task_sent(pid: u32) -> Seq<char> {
    "Sent termination signal to PID "@ + num::dec(pid as nat)
}

pub open spec fn end_task_failed(pid: u32, e: String) -> Seq<char> {
    "Failed to kill PID "@ + num::dec(pid as nat) + ": "@ + e@
}

pub open spec fn menu_kill_sent(name: Seq<char>, pid: u32) -> Seq<char> {
    name + " (PID "@ + num::dec(pid as nat) + ") işlemine sonlandırma sinyali gönderildi."@
}

pub open spec fn menu_kill_failed(name: Seq<char>, e: String) -> Seq<char> {
    name + " sonlandırılamadı: "@ + e@
}

pub open spec fn open_location_failed(e: Seq<char>) -> Seq<char> {
    "Dosya konumu açılamadı: "@ + e
}

pub open spec fn web_search_failed(e: Seq<char>) -> Seq<char> {
    "Tarayıcı açılamadı: "@ + e
}

/// What the process menu reports after trying to open a process's folder
/// with the default application: nothing when it could be started, else
/// the error.
pub fn open_location_report(result: Result<(), String>) -> (r: Option<Result<String, String>>)
    ensures
        match result {
            Ok(_) => r is None,
            Err(e) => r matches Some(Err(m)) && m@ == open_location_failed(e@),
        },
{
    match result {
        Ok(_) => None,
        Err(e) => {
            let mut v: Vec<char> = Vec::new();
            push_str(&mut v, "Dosya konumu açılamadı: ");
            push_str(&mut v, e.as_str());
            Some(Err(string_of(&v)))
        },
    }
}

/// What the process menu reports after trying to open a web search for a
/// process in the browser: nothing when it could be started, else the error.
pub fn web_search_report(result: Result<(), String>) -> (r: Option<Result<String, String>>)
    ensures
        match result {
            Ok(_) => r is None,
            Err(e) => r matches Some(Err(m)) && m@ == web_search_failed(e@),
        },
{
    match result {
        Ok(_) => None,
        Err(e) => {
            let mut v: Vec<char> = Vec::new();
            push_str(&mut v, "Tarayıcı açılamadı: ");
            push_str(&mut v, e.as_str());
            Some(Err(string_of(&v)))
        },
    }
}


// ---------------------------------------------------------------------------
// Reload timers
// ---------------------------------------------------------------------------

/// A cached list loaded at `last` (nanoseconds on the caller's monotonic
/// clock, `None` when never loaded or invalidated) is reloaded at `now` when
/// it was never loaded or more than `period` nanoseconds have passed.
pub open spec fn reload_due(last: Option<u64>, now: u64, period: u64) -> bool {
    match last {
        None => true,
        Some(t) => now - t > period,
    }
}

fn reload_due_at(last: Option<u64>, now: u64, period: u64) -> (r: bool)
    ensures
        r == reload_due(last, now, period),
{
    match last {
        None => true,
        Some(t) => now > t && now - t > period,
    }
}

// ---------------------------------------------------------------------------
// Lower-case search
// ---------------------------------------------------------------------------

/// Lowercase `field` contains the already lowercased query `q`.
fn field_has(field: &str, q: &Vec<char>) -> (r: bool)
    ensures
        r == text::has_sub(text::lower_text(field@), q@),
{
    let l = text::to_lower(field);
    text::contains(&chars_of(l.as_str()), q)
}

// ---------------------------------------------------------------------------
// Connections tab
// ---------------------------------------------------------------------------

/// What the connections tab keeps between frames.
pub struct ConnectionsTab {
    /// Text matched against process names, pids, addresses, states and
    /// protocols.
    pub search_query: String,
    /// The connections last read.
    pub cached_connections: Vec<NetworkConnection>,
    /// When they were read (nanoseconds on the caller's monotonic clock).
    pub last_load: Option<u64>,
}

/// Nanoseconds between automatic reloads of the connections.
pub const CONNECTIONS_PERIOD: u64 = 5_000_000_000;

/// The connection is shown for the lowercased query `q`: `q` occurs in the
/// lowercase process name, the decimal pid, or the lowercase local address,
/// remote address, state or protocol.
pub open spec fn conn_matches(c: ConnView, q: Seq<char>) -> bool {
    ||| text::has_sub(text::lower_text(c.process_name), q)
    ||| (c.pid matches Some(p) && text::has_sub(num::dec(p as nat), q))
    ||| text::has_sub(text::lower_text(c.local_address), q)
    ||| text::has_sub(text::lower_text(c.remote_address), q)
    ||| text::has_sub(text::lower_text(c.state), q)
    ||| text::has_sub(text::lower_text(c.protocol), q)
}

/// The connections among `cs` that are shown for query `q`, in order.
pub open spec fn conns_shown(cs: Seq<ConnView>, q: Seq<char>) -> Seq<ConnView>
    decreases cs.len(),
{
    if cs.len() == 0 {
        seq![]
    } else {
        let rest = conns_shown(cs.drop_last(), q);
        if conn_matches(cs.last(), q) {
            rest.push(cs.last())
        } else {
            rest
        }
    }
}

proof fn lemma_conns_shown_members(cs: Seq<ConnView>, q: Seq<char>, c: ConnView)
    ensures
        conns_shown(cs, q).contains(c) <==> cs.contains(c) && conn_matches(c, q),
    decreases cs.len(),
{
    if cs.len() > 0 {
        let f = cs.drop_last();
        lemma_conns_shown_members(f, q, c);
        let rest = conns_shown(f, q);
        if conn_matches(cs.last(), q) {
            assert(rest.push(cs.last())[rest.len() as int] == cs.last());
            if rest.contains(c) {
                let k = choose|k: int| 0 <= k < rest.len() && rest[k] == c;
                assert(rest.push(cs.last())[k] == c);
            }
            if rest.push(cs.last()).contains(c) && c != cs.last() {
                let k = choose|k: int| 0 <= k < rest.push(cs.last()).len() && rest.push(cs.last())[k] == c;
                assert(rest[k] == c);
            }
        }
        if f.contains(c) {
            let k = choose|k: int| 0 <= k < f.len() && f[k] == c;
            assert(cs[k] == c);
        }
        if cs.contains(c) && c != cs.last() {
            let k = choose|k: int| 0 <= k < cs.len() && cs[k] == c;
            assert(k != cs.len() - 1);
            assert(f[k] == c);
        }
        assert(cs[cs.len() - 1] == cs.last());
    }
}

/// The connections search looks in every column: a cached connection is
/// shown for a search text exactly when the lowercase text occurs in the
/// lowercase process name, the decimal pid, the lowercase local or remote
/// address, the lowercase state or the lowercase protocol.
pub proof fn lemma_conn_filter_fields(cs: Seq<ConnView>, query: Seq<char>, c: ConnView)
    ensures
        conns_shown(cs, text::lower_text(query)).contains(c) <==> cs.contains(c) && {
            let lq = text::lower_text(query);
            ||| text::has_sub(text::lower_text(c.process_name), lq)
            ||| (c.pid matches Some(p) && text::has_sub(num::dec(p as nat), lq))
            ||| text::has_sub(text::lower_text(c.local_address), lq)
            ||| text::has_sub(text::lower_text(c.remote_address), lq)
            ||| text::has_sub(text::lower_text(c.state), lq)
            ||| text::has_sub(text::lower_text(c.protocol), lq)
        },
{
    lemma_conns_shown_members(cs, text::lower_text(query), c);
}

fn copy_connection(c: &NetworkConnection) -> (r: NetworkConnection)
    ensures
        r@ == c@,
{
    NetworkConnection {
        protocol: c.protocol.clone(),
        local_address: c.local_address.clone(),
        remote_address: c.remote_address.clone(),
        state: c.state.clone(),
        pid: c.pid,
        process_name: c.process_name.clone(),
    }
}

impl ConnectionsTab {
    pub fn new() -> (r: ConnectionsTab)
        ensures
            r.search_query@ == Seq::<char>::empty(),
            r.cached_connections@.len() == 0,
            r.last_load is None,
    {
        ConnectionsTab { search_query: String::new(), cached_connections: Vec::new(), last_load: None }
    }

    /// The connections are read again at `now` when never read, invalidated,
    /// or older than five seconds.
    pub fn needs_reload(&self, now: u64) -> (r: bool)
        ensures
            r == reload_due(self.last_load, now, CONNECTIONS_PERIOD),
    {
        reload_due_at(self.last_load, now, CONNECTIONS_PERIOD)
    }

    /// The connections were read at `now`.
    pub fn loaded(&mut self, connections: Vec<NetworkConnection>, now: u64)
        ensures
            final(self).cached_connections == connections,
            final(self).last_load == Some(now),
            final(self).search_query == old(self).search_query,
    {
        self.cached_connections = connections;
        self.last_load = Some(now);
    }

    /// The Refresh button was clicked: the next frame reads them again.
    pub fn refresh_clicked(&mut self)
        ensures
            *final(self) == (ConnectionsTab { last_load: None, ..*old(self) }),
    {
        self.last_load = None;
    }

    /// The connections shown for the search text, in order.
    pub fn filtered(&self) -> (r: Vec<NetworkConnection>)
        ensures
            crate::netconn::conn_views(r@) == conns_shown(
                crate::netconn::conn_views(self.cached_connections@),
                text::lower_text(self.search_query@),
            ),
    {
        let low = text::to_lower(self.search_query.as_str());
        let q = chars_of(low.as_str());
        let ghost cs = crate::netconn::conn_views(self.cached_connections@);
        let mut out: Vec<NetworkConnection> = Vec::new();
        let mut i: usize = 0;
        while i < self.cached_connections.len()
            invariant
                i <= self.cached_connections@.len(),
                cs == crate::netconn::conn_views(self.cached_connections@),
                q@ == text::lower_text(self.search_query@),
                crate::netconn::conn_views(out@) == conns_shown(cs.take(i as int), q@),
            decreases self.cached_connections.len() - i,
        {
            let c = &self.cached_connections[i];
            let ghost t = cs.take(i + 1);
            assert(t.drop_last() == cs.take(i as int));
            assert(t.last() == c@);
            let by_pid = match c.pid {
                Some(p) => {
                    let mut d: Vec<char> = Vec::new();
                    num::push_dec(&mut d, p as u128);
                    text::contains(&d, &q)
                },
                None => false,
            };
            let m = field_has(c.process_name.as_str(), &q) || by_pid || field_has(
                c.local_address.as_str(),
                &q,
            ) || field_has(c.remote_address.as_str(), &q) || field_has(c.state.as_str(), &q)
                || field_has(c.protocol.as_str(), &q);
            assert(m == conn_matches(c@, q@));
            if m {
                out.push(copy_connection(c));
            }
            assert(crate::netconn::conn_views(out@) =~= conns_shown(t, q@));
            i = i + 1;
        }
        assert(cs.take(cs.len() as int) == cs);
        out
    }
}

/// The owner column of a connection: `name (PID: pid)`, or "Unknown" in
/// the interface language when no process was found.
pub fn owner_label(c: &NetworkConnection, lang: Language) -> (r: String)
    ensures
        r@ == match c.pid {
            Some(p) => c.process_name@ + " (PID: "@ + num::dec(p as nat) + ")"@,
            None => if lang == Language::Turkish {
                "Bilinmiyor"@
            } else {
                "Unknown"@
            },
        },
{
    match c.pid {
        Some(p) => {
            let mut v: Vec<char> = Vec::new();
            push_str(&mut v, c.process_name.as_str());
            push_str(&mut v, " (PID: ");
            num::push_dec(&mut v, p as u128);
            push_str(&mut v, ")");
            string_of(&v)
        },
        None => if lang == Language::Turkish {
            String::from_str("Bilinmiyor")
        } else {
            String::from_str("Unknown")
        },
    }
}

// ---------------------------------------------------------------------------
// File locks tab
// ---------------------------------------------------------------------------

/// What the file locks tab keeps between frames.
pub struct FileLocksTab {
    /// The file or directory to inspect.
    pub target_path: String,
    /// The locks found by the last search.
    pub cached_locks: Vec<FileLockInfo>,
    pub status_success: Option<String>,
    pub status_error: Option<String>,
}

pub open spec fn no_path_message(lang: Language) -> Seq<char> {
    if lang == Language::Turkish {
        "Lütfen geçerli bir dosya veya klasör yolu girin."@
    } else {
        "Please enter a valid file or folder path."@
    }
}

pub open spec fn search_message(lang: Language, n: nat) -> Seq<char> {
    if n == 0 {
        if lang == Language::Turkish {
            "Bu dosya veya klasörü kullanan herhangi bir süreç bulunamadı."@
        } else {
            "No processes found holding handles on this file or folder."@
        }
    } else if lang == Language::Turkish {
        "Toplam "@ + num::dec(n) + " süreç kilit bulundu."@
    } else {
        "Found total of "@ + num::dec(n) + " process locks."@
    }
}

impl FileLocksTab {
    pub fn new() -> (r: FileLocksTab)
        ensures
            r.target_path@ == Seq::<char>::empty(),
            r.cached_locks@.len() == 0,
            r.status_success is None,
            r.status_error is None,
    {
        FileLocksTab {
            target_path: String::new(),
            cached_locks: Vec::new(),
            status_success: None,
            status_error: None,
        }
    }

    /// Starts a search for the entered path. A blank path sets an error and
    /// returns `None`; otherwise the path to scan is returned and the caller
    /// hands the locks it finds to `search_finished`.
    pub fn trigger_search(&mut self, lang: Language) -> (r: Option<String>)
        ensures
            text::trim(old(self).target_path@).len() == 0 ==> r is None
                && text::opt_chars(final(self).status_error) == Some(no_path_message(lang))
                && final(self).status_success is None
                && final(self).cached_locks == old(self).cached_locks
                && final(self).target_path == old(self).target_path,
            text::trim(old(self).target_path@).len() != 0 ==> (r matches Some(p) && p@
                == old(self).target_path@) && *final(self) == *old(self),
    {
        if crate::command::blank(self.target_path.as_str()) {
            let mut v: Vec<char> = Vec::new();
            if lang == Language::Turkish {
                push_str(&mut v, "Lütfen geçerli bir dosya veya klasör yolu girin.");
            } else {
                push_str(&mut v, "Please enter a valid file or folder path.");
            }
            self.status_error = Some(string_of(&v));
            self.status_success = None;
            return None;
        }
        Some(self.target_path.clone())
    }

    /// The scan started by `trigger_search` found `locks`: they are kept and
    /// the success banner tells how many there are.
    pub fn search_finished(&mut self, lang: Language, locks: Vec<FileLockInfo>)
        ensures
            final(self).cached_locks == locks,
            text::opt_chars(final(self).status_success) == Some(search_message(lang, locks@.len())),
            final(self).status_error is None,
            final(self).target_path == old(self).target_path,
    {
        let n = locks.len();
        self.cached_locks = locks;
        let mut v: Vec<char> = Vec::new();
        if n == 0 {
            if lang == Language::Turkish {
                push_str(&mut v, "Bu dosya veya klasörü kullanan herhangi bir süreç bulunamadı.");
            } else {
                push_str(&mut v, "No processes found holding handles on this file or folder.");
            }
        } else if lang == Language::Turkish {
            push_str(&mut v, "Toplam ");
            push_number(&mut v, n as u64);
            push_str(&mut v, " süreç kilit bulundu.");
        } else {
            push_str(&mut v, "Found total of ");
            push_number(&mut v, n as u64);
            push_str(&mut v, " process locks.");
        }
        self.status_success = Some(string_of(&v));
        self.status_error = None;
    }

    /// The End Task button of the row of `pid` sent a termination signal
    /// with this result. On success the banner says so and the path is
    /// returned for the caller to scan again and store the locks it finds in
    /// `cached_locks`; on failure the error is shown.
    pub fn terminate_result(&mut self, lang: Language, pid: u32, result: Result<(), String>) -> (r:
        Option<String>)
        ensures
            match result {
                Ok(_) => (r matches Some(p) && p@ == old(self).target_path@) && text::opt_chars(
                    final(self).status_success,
                ) == Some(
                    if lang == Language::Turkish {
                        "PID "@ + num::dec(pid as nat) + " başarıyla kapatıldı."@
                    } else {
                        "PID "@ + num::dec(pid as nat) + " terminated successfully."@
                    },
                ) && final(self).status_error is None,
                Err(e) => r is None && text::opt_chars(final(self).status_error) == Some(
                    if lang == Language::Turkish {
                        "Kapatma başarısız: "@ + e@
                    } else {
                        "Termination failed: "@ + e@
                    },
                ) && final(self).status_success is None,
            },
            final(self).cached_locks == old(self).cached_locks,
            final(self).target_path == old(self).target_path,
    {
        let mut v: Vec<char> = Vec::new();
        match result {
            Ok(_) => {
                push_str(&mut v, "PID ");
                push_number(&mut v, pid as u64);
                if lang == Language::Turkish {
                    push_str(&mut v, " başarıyla kapatıldı.");
                } else {
                    push_str(&mut v, " terminated successfully.");
                }
                self.status_success = Some(string_of(&v));
                self.status_error = None;
                Some(self.target_path.clone())
            },
            Err(e) => {
                if lang == Language::Turkish {
                    push_str(&mut v, "Kapatma başarısız: ");
                } else {
                    push_str(&mut v, "Termination failed: ");
                }
                push_str(&mut v, e.as_str());
                self.status_error = Some(string_of(&v));
                self.status_success = None;
                None
            },
        }
    }
}


// ---------------------------------------------------------------------------
// Services tab
// ---------------------------------------------------------------------------

/// What the services tab keeps between frames.
pub struct ServicesTab {
    /// Text matched against service names and descriptions.
    pub search_query: String,
    /// The services last listed.
    pub cached_services: Vec<ServiceInfo>,
    /// When they were listed (nanoseconds on the caller's monotonic clock).
    pub last_load: Option<u64>,
    pub status_success: Option<String>,
    pub status_error: Option<String>,
}

/// Nanoseconds between automatic reloads of the services.
pub const SERVICES_PERIOD: u64 = 8_000_000_000;

pub open spec fn service_matches(s: crate::systemd::ServiceView, q: Seq<char>) -> bool {
    text::has_sub(text::lower_text(s.name), q) || text::has_sub(
        text::lower_text(s.description),
        q,
    )
}

/// The services among `ss` whose lowercase name or description contains the
/// lowercased query `q`, in order.
pub open spec fn services_shown(ss: Seq<crate::systemd::ServiceView>, q: Seq<char>) -> Seq<
    crate::systemd::ServiceView,
>
    decreases ss.len(),
{
    if ss.len() == 0 {
        seq![]
    } else {
        let rest = services_shown(ss.drop_last(), q);
        if service_matches(ss.last(), q) {
            rest.push(ss.last())
        } else {
            rest
        }
    }
}

proof fn lemma_services_shown_members(
    ss: Seq<crate::systemd::ServiceView>,
    q: Seq<char>,
    x: crate::systemd::ServiceView,
)
    ensures
        services_shown(ss, q).contains(x) <==> ss.contains(x) && service_matches(x, q),
    decreases ss.len(),
{
    if ss.len() > 0 {
        let f = ss.drop_last();
        lemma_services_shown_members(f, q, x);
        let rest = services_shown(f, q);
        if service_matches(ss.last(), q) {
            assert(rest.push(ss.last())[rest.len() as int] == ss.last());
            if rest.contains(x) {
                let k = choose|k: int| 0 <= k < rest.len() && rest[k] == x;
                assert(rest.push(ss.last())[k] == x);
            }
            if rest.push(ss.last()).contains(x) && x != ss.last() {
                let k = choose|k: int| 0 <= k < rest.push(ss.last()).len() && rest.push(ss.last())[k] == x;
                assert(rest[k] == x);
            }
        }
        if f.contains(x) {
            let k = choose|k: int| 0 <= k < f.len() && f[k] == x;
            assert(ss[k] == x);
        }
        if ss.contains(x) && x != ss.last() {
            let k = choose|k: int| 0 <= k < ss.len() && ss[k] == x;
            assert(k != ss.len() - 1);
            assert(f[k] == x);
        }
        assert(ss[ss.len() - 1] == ss.last());
    }
}

/// The services search looks in the unit name and the description: a
/// cached service is shown for a search text exactly when the lowercase
/// text occurs in its lowercase name or its lowercase description.
pub proof fn lemma_service_filter_fields(
    ss: Seq<crate::systemd::ServiceView>,
    query: Seq<char>,
    x: crate::systemd::ServiceView,
)
    ensures
        services_shown(ss, text::lower_text(query)).contains(x) <==> ss.contains(x) && (text::has_sub(
            text::lower_text(x.name),
            text::lower_text(query),
        ) || text::has_sub(text::lower_text(x.description), text::lower_text(query))),
{
    lemma_services_shown_members(ss, text::lower_text(query), x);
}

fn copy_service(s: &ServiceInfo) -> (r: ServiceInfo)
    ensures
        r@ == s@,
{
    ServiceInfo {
        name: s.name.clone(),
        load_state: s.load_state.clone(),
        active_state: s.active_state.clone(),
        sub_state: s.sub_state.clone(),
        description: s.description.clone(),
    }
}

impl ServicesTab {
    pub fn new() -> (r: ServicesTab)
        ensures
            r.search_query@ == Seq::<char>::empty(),
            r.cached_services@.len() == 0,
            r.last_load is None,
            r.status_success is None,
            r.status_error is None,
    {
        ServicesTab {
            search_query: String::new(),
            cached_services: Vec::new(),
            last_load: None,
            status_success: None,
            status_error: None,
        }
    }

    /// A background service action finished: success shows its message and
    /// invalidates the list; failure shows the error.
    pub fn apply_action_result(&mut self, result: Result<String, String>)
        ensures
            match result {
                Ok(m) => final(self).status_success == Some(m) && final(self).status_error is None
                    && final(self).last_load is None,
                Err(e) => final(self).status_error == Some(e) && final(self).status_success is None
                    && final(self).last_load == old(self).last_load,
            },
            final(self).search_query == old(self).search_query,
            final(self).cached_services == old(self).cached_services,
    {
        match result {
            Ok(m) => {
                self.status_success = Some(m);
                self.status_error = None;
                self.last_load = None;
            },
            Err(e) => {
                self.status_error = Some(e);
                self.status_success = None;
            },
        }
    }

    /// The services are listed again at `now` when never listed, invalidated,
    /// or older than eight seconds.
    pub fn needs_reload(&self, now: u64) -> (r: bool)
        ensures
            r == reload_due(self.last_load, now, SERVICES_PERIOD),
    {
        reload_due_at(self.last_load, now, SERVICES_PERIOD)
    }

    /// Listing the services at `now` gave `result`: a list replaces the cache
    /// and restarts the timer; an error leaves everything as it was.
    pub fn loaded(&mut self, result: Result<Vec<ServiceInfo>, String>, now: u64)
        ensures
            match result {
                Ok(list) => final(self).cached_services == list && final(self).last_load == Some(now),
                Err(_) => final(self).cached_services == old(self).cached_services
                    && final(self).last_load == old(self).last_load,
            },
            final(self).search_query == old(self).search_query,
            final(self).status_success == old(self).status_success,
            final(self).status_error == old(self).status_error,
    {
        match result {
            Ok(list) => {
                self.cached_services = list;
                self.last_load = Some(now);
            },
            Err(_) => {},
        }
    }

    /// The Refresh button was clicked: the next frame lists them again.
    pub fn refresh_clicked(&mut self)
        ensures
            *final(self) == (ServicesTab { last_load: None, ..*old(self) }),
    {
        self.last_load = None;
    }

    /// The services shown for the search text, in order.
    pub fn filtered(&self) -> (r: Vec<ServiceInfo>)
        ensures
            service_views(r@) == services_shown(
                service_views(self.cached_services@),
                text::lower_text(self.search_query@),
            ),
    {
        let low = text::to_lower(self.search_query.as_str());
        let q = chars_of(low.as_str());
        let ghost ss = service_views(self.cached_services@);
        let mut out: Vec<ServiceInfo> = Vec::new();
        let mut i: usize = 0;
        while i < self.cached_services.len()
            invariant
                i <= self.cached_services@.len(),
                ss == service_views(self.cached_services@),
                q@ == text::lower_text(self.search_query@),
                service_views(out@) == services_shown(ss.take(i as int), q@),
            decreases self.cached_services.len() - i,
        {
            let s = &self.cached_services[i];
            let ghost t = ss.take(i + 1);
            assert(t.drop_last() == ss.take(i as int));
            assert(t.last() == s@);
            if field_has(s.name.as_str(), &q) || field_has(s.description.as_str(), &q) {
                out.push(copy_service(s));
            }
            assert(service_views(out@) =~= services_shown(t, q@));
            i = i + 1;
        }
        assert(ss.take(ss.len() as int) == ss);
        out
    }
}

// ---------------------------------------------------------------------------
// Startup tab
// ---------------------------------------------------------------------------

/// What the startup applications tab keeps between frames.
pub struct StartupTab {
    /// The autostart entries last listed.
    pub cached_apps: Vec<StartupApp>,
    /// When they were listed (nanoseconds on the caller's monotonic clock).
    pub last_load: Option<u64>,
    pub success_message: Option<String>,
    pub error_message: Option<String>,
}

/// Nanoseconds between automatic reloads of the startup entries.
pub const STARTUP_PERIOD: u64 = 10_000_000_000;

pub open spec fn state_word(lang: Language, enabled: bool) -> Seq<char> {
    if lang == Language::Turkish {
        if enabled {
            "Etkin"@
        } else {
            "Devre Dışı"@
        }
    } else if enabled {
        "Enabled"@
    } else {
        "Disabled"@
    }
}

pub open spec fn toggled_message(lang: Language, name: Seq<char>, enabled: bool) -> Seq<char> {
    if lang == Language::Turkish {
        "'"@ + name + "' başlangıç durumu '"@ + state_word(lang, enabled) + "' olarak güncellendi."@
    } else {
        "Startup status of '"@ + name + "' updated to '"@ + state_word(lang, enabled) + "'."@
    }
}

pub open spec fn toggle_failed_message(lang: Language, name: Seq<char>, e: Seq<char>) -> Seq<char> {
    if lang == Language::Turkish {
        "'"@ + name + "' güncellenirken hata oluştu: "@ + e
    } else {
        "Error updating '"@ + name + "': "@ + e
    }
}

impl StartupTab {
    pub fn new() -> (r: StartupTab)
        ensures
            r.cached_apps@.len() == 0,
            r.last_load is None,
            r.success_message is None,
            r.error_message is None,
    {
        StartupTab { cached_apps: Vec::new(), last_load: None, success_message: None, error_message: None }
    }

    /// The entries are listed again at `now` when never listed, invalidated,
    /// or older than ten seconds.
    pub fn needs_reload(&self, now: u64) -> (r: bool)
        ensures
            r == reload_due(self.last_load, now, STARTUP_PERIOD),
    {
        reload_due_at(self.last_load, now, STARTUP_PERIOD)
    }

    /// The entries were listed at `now`.
    pub fn loaded(&mut self, apps: Vec<StartupApp>, now: u64)
        ensures
            final(self).cached_apps == apps,
            final(self).last_load == Some(now),
            final(self).success_message == old(self).success_message,
            final(self).error_message == old(self).error_message,
    {
        self.cached_apps = apps;
        self.last_load = Some(now);
    }

    /// The Refresh button was clicked: the next frame lists them again.
    pub fn refresh_clicked(&mut self)
        ensures
            *final(self) == (StartupTab { last_load: None, ..*old(self) }),
    {
        self.last_load = None;
    }

    /// Switching the entry named `name` to `enabled` gave `result`: success
    /// reports the new state and invalidates the list, failure reports the
    /// error.
    pub fn toggle_result(&mut self, lang: Language, name: &str, enabled: bool, result: Result<(), String>)
        ensures
            match result {
                Ok(_) => text::opt_chars(final(self).success_message) == Some(
                    toggled_message(lang, name@, enabled),
                ) && final(self).error_message is None && final(self).last_load is None,
                Err(e) => text::opt_chars(final(self).error_message) == Some(
                    toggle_failed_message(lang, name@, e@),
                ) && final(self).success_message is None && final(self).last_load
                    == old(self).last_load,
            },
            final(self).cached_apps == old(self).cached_apps,
    {
        let mut v: Vec<char> = Vec::new();
        match result {
            Ok(_) => {
                if lang == Language::Turkish {
                    push_str(&mut v, "'");
                    push_str(&mut v, name);
                    push_str(&mut v, "' başlangıç durumu '");
                    push_str(&mut v, if enabled { "Etkin" } else { "Devre Dışı" });
                    push_str(&mut v, "' olarak güncellendi.");
                } else {
                    push_str(&mut v, "Startup status of '");
                    push_str(&mut v, name);
                    push_str(&mut v, "' updated to '");
                    push_str(&mut v, if enabled { "Enabled" } else { "Disabled" });
                    push_str(&mut v, "'.");
                }
                self.success_message = Some(string_of(&v));
                self.error_message = None;
                self.last_load = None;
            },
            Err(e) => {
                if lang == Language::Turkish {
                    push_str(&mut v, "'");
                    push_str(&mut v, name);
                    push_str(&mut v, "' güncellenirken hata oluştu: ");
                } else {
                    push_str(&mut v, "Error updating '");
                    push_str(&mut v, name);
                    push_str(&mut v, "': ");
                }
                push_str(&mut v, e.as_str());
                self.error_message = Some(string_of(&v));
                self.success_message = None;
            },
        }
    }
}

// ---------------------------------------------------------------------------
// Performance and about tabs
// ---------------------------------------------------------------------------

/// The detail pages of the performance tab.
#[derive(Debug, Clone, Copy, PartialEq, Eq, Structural)]
pub enum PerfSubTab {
    Cpu,
    Memory,
    Disk,
    Network,
    Gpu,
}

/// What the performance tab keeps between frames.
pub struct PerformanceTab {
    pub active_subtab: PerfSubTab,
}

impl PerformanceTab {
    /// Starts on the CPU page.
    pub fn new() -> (r: PerformanceTab)
        ensures
            r.active_subtab == PerfSubTab::Cpu,
    {
        PerformanceTab { active_subtab: PerfSubTab::Cpu }
    }

    /// A summary card was clicked: its page is shown.
    pub fn select(&mut self, page: PerfSubTab)
        ensures
            final(self).active_subtab == page,
    {
        self.active_subtab = page;
    }
}

/// What the about tab shows of the graphical session.
pub struct AboutTab {
    pub platform_info: PlatformInfo,
}

impl AboutTab {
    /// Collects the platform details from the session's environment and
    /// whether the Wayland socket exists.
    pub fn new(env: &SessionEnv, wayland_socket_exists: bool) -> (r: AboutTab)
        ensures
            crate::backend::platform_fits(r.platform_info, *env, wayland_socket_exists),
    {
        AboutTab { platform_info: PlatformInfo::collect(env, wayland_socket_exists) }
    }

    /// The rows of the graphical server card, as (title, value): the server
    /// type, then the Wayland details when Wayland is active, else the X11
    /// details when X11 is active, else a headless note.
    pub fn server_rows(&self) -> (r: Vec<(String, String)>)
        ensures
            row_views(r@) == server_rows_spec(self.platform_info),
    {
        let info = &self.platform_info;
        let mut rows: Vec<(String, String)> = Vec::new();
        rows.push((String::from_str("Active Server Type"), info.display_server.to_string()));
        if info.wayland.is_active {
            rows.push((String::from_str("Compositor Name"), info.wayland.compositor.clone()));
            rows.push((String::from_str("Wayland Socket"), info.wayland.socket_name.clone()));
            match &info.wayland.socket_path {
                Some(p) => rows.push((String::from_str("Socket Connection Path"), p.clone())),
                None => {},
            }
        } else if info.x11.is_active {
            rows.push((String::from_str("Window Manager"), info.x11.window_manager.clone()));
            rows.push((String::from_str("X11 Display Name"), info.x11.display_name.clone()));
            match &info.x11.xauthority {
                Some(a) => rows.push((String::from_str("XAuthority Profile"), a.clone())),
                None => {},
            }
        } else {
            rows.push(
                (String::from_str("Session Protocol"), String::from_str("Fallback Terminal / Headless")),
            );
        }
        assert(row_views(rows@) =~= server_rows_spec(self.platform_info));
        rows
    }
}

pub open spec fn row_views(v: Seq<(String, String)>) -> Seq<(Seq<char>, Seq<char>)> {
    v.map_values(|p: (String, String)| (p.0@, p.1@))
}

pub open spec fn server_rows_spec(info: PlatformInfo) -> Seq<(Seq<char>, Seq<char>)> {
    let first = seq![
        ("Active Server Type"@, crate::backend::display_server_text(info.display_server)),
    ];
    if info.wayland.is_active {
        first + seq![
            ("Compositor Name"@, info.wayland.compositor@),
            ("Wayland Socket"@, info.wayland.socket_name@),
        ] + match info.wayland.socket_path {
            Some(p) => seq![("Socket Connection Path"@, p@)],
            None => seq![],
        }
    } else if info.x11.is_active {
        first + seq![
            ("Window Manager"@, info.x11.window_manager@),
            ("X11 Display Name"@, info.x11.display_name@),
        ] + match info.x11.xauthority {
            Some(a) => seq![("XAuthority Profile"@, a@)],
            None => seq![],
        }
    } else {
        first + seq![("Session Protocol"@, "Fallback Terminal / Headless"@)]
    }
}

} // verus!
