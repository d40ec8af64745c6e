//! XDG autostart entries: reading `.desktop` files, merging the user's and
//! the system's autostart directories, and switching an entry on or off.
//!
//! Files are read and written by the caller; this module works on their text.
use vstd::prelude::*;

use crate::paths;
use crate::text;
use crate::text::{chars_of, push_str, string_of};

verus! {

broadcast use vstd::seq_lib::group_seq_properties;

/// An application that starts with the desktop session.
pub struct StartupApp {
    /// The user-visible name.
    pub name: String,
    /// The command that is run.
    pub command: String,
    /// Path of the `.desktop` file.
    pub path: String,
    /// Whether the entry is enabled.
    pub enabled: bool,
}

pub struct AppView {
    pub name: Seq<char>,
    pub command: Seq<char>,
    pub path: Seq<char>,
    pub enabled: bool,
}

impl View for StartupApp {
    type V = AppView;

    open spec fn view(&self) -> AppView {
        AppView { name: self.name@, command: self.command@, path: self.path@, enabled: self.enabled }
    }
}

pub open spec fn name_key() -> Seq<char> {
    seq!['N', 'a', 'm', 'e', '=']
}

pub open spec fn exec_key() -> Seq<char> {
    seq!['E', 'x', 'e', 'c', '=']
}

pub open spec fn autostart_key() -> Seq<char> {
    seq![
        'X', '-', 'G', 'N', 'O', 'M', 'E', '-', 'A', 'u', 't', 'o', 's', 't', 'a', 'r', 't', '-',
        'e', 'n', 'a', 'b', 'l', 'e', 'd', '=',
    ]
}

pub open spec fn hidden_key() -> Seq<char> {
    seq!['H', 'i', 'd', 'd', 'e', 'n', '=']
}

/// Name, command and enabled state read from the lines of a desktop file.
/// Each line is trimmed; the last `Name=` and `Exec=` give name and command
/// (trimmed); `X-GNOME-Autostart-enabled=` with value `false`, or `Hidden=`
/// with value `true` (compared after lowercasing), disable the entry.
pub open spec fn parse_lines(ls: Seq<Seq<char>>) -> (Seq<char>, Seq<char>, bool)
    decreases ls.len(),
{
    if ls.len() == 0 {
        (seq![], seq![], true)
    } else {
        let (n, e, en) = parse_lines(ls.drop_last());
        let l = text::trim(ls.last());
        if text::has_prefix(l, name_key()) {
            (text::trim(l.skip(5)), e, en)
        } else if text::has_prefix(l, exec_key()) {
            (n, text::trim(l.skip(5)), en)
        } else if text::has_prefix(l, autostart_key()) {
            (n, e, en && text::lower_text(text::trim(l.skip(26))) != "false"@)
        } else if text::has_prefix(l, hidden_key()) {
            (n, e, en && text::lower_text(text::trim(l.skip(7))) != "true"@)
        } else {
            (n, e, en)
        }
    }
}

/// The entry described by a desktop file with text `content` at `path`;
/// an empty name is replaced by the file stem, and without a stem there is
/// no entry.
pub open spec fn desktop_entry_spec(
    content: Seq<char>,
    path: Seq<char>,
    file_stem: Option<Seq<char>>,
) -> Option<AppView> {
    let (n, e, en) = parse_lines(text::lines(content));
    if n.len() == 0 && file_stem is None {
        None
    } else {
        Some(
            AppView {
                name: if n.len() == 0 {
                    file_stem.unwrap()
                } else {
                    n
                },
                command: e,
                path: path,
                enabled: en,
            },
        )
    }
}

pub open spec fn opt_app(a: Option<StartupApp>) -> Option<AppView> {
    match a {
        Some(x) => Some(x@),
        None => None,
    }
}

fn lower_is(x: &Vec<char>, lit: &str) -> (r: bool)
    ensures
        r == (text::lower_text(x@) == lit@),
{
    let s = string_of(x);
    let l = text::to_lower(s.as_str());
    text::chars_equal(&chars_of(l.as_str()), &chars_of(lit))
}

fn tail_trimmed(l: &Vec<char>, k: usize) -> (r: Vec<char>)
    requires
        k <= l@.len(),
    ensures
        r@ == text::trim(l@.skip(k as int)),
{
    let t = text::sub_vec(l, k, l.len());
    text::trim_chars(&t)
}

/// Reads a desktop file: `content` is its text, `path` its path and
/// `file_stem` its file name without extension.
pub fn parse_desktop_file(content: &str, path: &str, file_stem: Option<&str>) -> (r: Option<
    StartupApp,
>)
    ensures
        opt_app(r) == desktop_entry_spec(content@, path@, text::opt_str(file_stem)),
{
    let v = chars_of(content);
    let ls = text::split_lines(&v);
    let ghost lv = text::views(ls@);
    let name_k: Vec<char> = vec!['N', 'a', 'm', 'e', '='];
    let exec_k: Vec<char> = vec!['E', 'x', 'e', 'c', '='];
    let auto_k = autostart_key_chars();
    let hidden_k: Vec<char> = vec!['H', 'i', 'd', 'd', 'e', 'n', '='];
    let mut name: Vec<char> = Vec::new();
    let mut command: Vec<char> = Vec::new();
    let mut enabled = true;
    let mut i: usize = 0;
    while i < ls.len()
        invariant
            i <= ls@.len(),
            lv == text::views(ls@),
            name_k@ == name_key(),
            exec_k@ == exec_key(),
            auto_k@ == autostart_key(),
            hidden_k@ == hidden_key(),
            autostart_key().len() == 26,
            parse_lines(lv.take(i as int)) == (name@, command@, enabled),
        decreases ls.len() - i,
    {
        let l = text::trim_chars(&ls[i]);
        proof {
            let t = lv.take(i + 1);
            assert(t.drop_last() == lv.take(i as int));
            assert(t.last() == ls@[i as int]@);
        }
        if text::starts_with(&l, &name_k) {
            name = tail_trimmed(&l, 5);
        } else if text::starts_with(&l, &exec_k) {
            command = tail_trimmed(&l, 5);
        } else if text::starts_with(&l, &auto_k) {
            let val = tail_trimmed(&l, 26);
            if lower_is(&val, "false") {
                enabled = false;
            }
        } else if text::starts_with(&l, &hidden_k) {
            let val = tail_trimmed(&l, 7);
            if lower_is(&val, "true") {
                enabled = false;
            }
        }
        i = i + 1;
    }
    assert(lv.take(lv.len() as int) == lv);
    let name_s = if name.len() == 0 {
        match file_stem {
            Some(s) => String::from_str(s),
            None => return None,
        }
    } else {
        string_of(&name)
    };
    Some(StartupApp { name: name_s, command: string_of(&command), path: String::from_str(path), enabled })
}

// ---------------------------------------------------------------------------
// Autostart directories
// ---------------------------------------------------------------------------

/// A `.desktop` file found in an autostart directory.
pub struct DesktopFile {
    /// File name, such as `app.desktop`.
    pub file_name: String,
    /// Full path.
    pub path: String,
    /// File name without its extension.
    pub file_stem: Option<String>,
    /// Text of the file, `None` when it could not be read.
    pub content: Option<String>,
}

/// The entry a desktop file describes, if it could be read and parsed.
pub open spec fn file_entry(f: DesktopFile) -> Option<AppView> {
    match f.content {
        Some(c) => desktop_entry_spec(c@, f.path@, text::opt_chars(f.file_stem)),
        None => None,
    }
}

/// Entries of the user's autostart files, in order, with the file names of
/// the files that gave one.
pub open spec fn user_entries(fs: Seq<DesktopFile>) -> (Seq<AppView>, Set<Seq<char>>)
    decreases fs.len(),
{
    if fs.len() == 0 {
        (seq![], Set::empty())
    } else {
        let (apps, seen) = user_entries(fs.drop_last());
        match file_entry(fs.last()) {
            Some(a) => (apps.push(a), seen.insert(fs.last().file_name@)),
            None => (apps, seen),
        }
    }
}

/// Entries of the system autostart files whose file name is not in `seen`.
pub open spec fn system_entries(fs: Seq<DesktopFile>, seen: Set<Seq<char>>) -> Seq<AppView>
    decreases fs.len(),
{
    if fs.len() == 0 {
        seq![]
    } else {
        let apps = system_entries(fs.drop_last(), seen);
        if seen.contains(fs.last().file_name@) {
            apps
        } else {
            match file_entry(fs.last()) {
                Some(a) => apps.push(a),
                None => apps,
            }
        }
    }
}

/// A user autostart file overrides the system file of the same name: a
/// system file named like a user file that gives an entry adds nothing to
/// the list, whatever it holds, while the user's entry is listed.
pub proof fn lemma_user_file_overrides(user: Seq<DesktopFile>, system: Seq<DesktopFile>, f: DesktopFile)
    requires
        exists|i: int|
            0 <= i < user.len() && (#[trigger] user[i]).file_name@ == f.file_name@ && file_entry(
                user[i],
            ) is Some,
    ensures
        system_entries(system.push(f), user_entries(user).1) == system_entries(
            system,
            user_entries(user).1,
        ),
{
    let i = choose|i: int|
        0 <= i < user.len() && (#[trigger] user[i]).file_name@ == f.file_name@ && file_entry(
            user[i],
        ) is Some;
    lemma_user_names(user, i);
    assert(system.push(f).drop_last() == system);
}

proof fn lemma_user_names(user: Seq<DesktopFile>, i: int)
    requires
        0 <= i < user.len(),
        file_entry(user[i]) is Some,
    ensures
        user_entries(user).1.contains(user[i].file_name@),
    decreases user.len(),
{
    if i < user.len() - 1 {
        assert(user.drop_last()[i] == user[i]);
        lemma_user_names(user.drop_last(), i);
    }
}

pub open spec fn app_views(v: Seq<StartupApp>) -> Seq<AppView> {
    v.map_values(|a: StartupApp| a@)
}

fn entry_of(f: &DesktopFile) -> (r: Option<StartupApp>)
    ensures
        opt_app(r) == file_entry(*f),
{
    match &f.content {
        Some(c) => {
            let stem = match &f.file_stem {
                Some(s) => Some(s.as_str()),
                None => None,
            };
            parse_desktop_file(c.as_str(), f.path.as_str(), stem)
        },
        None => None,
    }
}

fn name_in(names: &Vec<Vec<char>>, n: &Vec<char>) -> (r: bool)
    ensures
        r == text::views(names@).contains(n@),
{
    let mut i: usize = 0;
    while i < names.len()
        invariant
            i <= names@.len(),
            forall|k: int| 0 <= k < i ==> names@[k]@ != n@,
        decreases names.len() - i,
    {
        if text::chars_equal(&names[i], n) {
            assert(text::views(names@)[i as int] == n@);
            return true;
        }
        i = i + 1;
    }
    assert forall|k: int| 0 <= k < text::views(names@).len() implies text::views(names@)[k]
        != n@ by {
        assert(text::views(names@)[k] == names@[k]@);
    }
    false
}

/// The startup applications: entries of the user's autostart directory
/// first, then those of the system directory whose file name no user entry
/// has (a user file overrides the system file of the same name).
pub fn list_startup_apps(user: &Vec<DesktopFile>, system: &Vec<DesktopFile>) -> (r: Vec<
    StartupApp,
>)
    ensures
        app_views(r@) == user_entries(user@).0 + system_entries(system@, user_entries(user@).1),
{
    let mut apps: Vec<StartupApp> = Vec::new();
    let mut seen: Vec<Vec<char>> = Vec::new();
    let mut i: usize = 0;
    while i < user.len()
        invariant
            i <= user@.len(),
            app_views(apps@) == user_entries(user@.take(i as int)).0,
            text::views(seen@).to_set() == user_entries(user@.take(i as int)).1,
        decreases user.len() - i,
    {
        proof {
            let t = user@.take(i + 1);
            assert(t.drop_last() == user@.take(i as int));
            assert(t.last() == user@[i as int]);
        }
        match entry_of(&user[i]) {
            Some(a) => {
                let ghost before = app_views(apps@);
                let ghost seen_before = text::views(seen@);
                let ghost av = a@;
                apps.push(a);
                seen.push(chars_of(user[i].file_name.as_str()));
                assert(app_views(apps@) =~= before.push(av));
                assert(text::views(seen@) =~= seen_before.push(user@[i as int].file_name@));
                assert(text::views(seen@).to_set() =~= seen_before.to_set().insert(
                    user@[i as int].file_name@,
                ));
            },
            None => {},
        }
        i = i + 1;
    }
    assert(user@.take(user@.len() as int) == user@);
    let ghost user_apps = app_views(apps@);
    let ghost seen_set = user_entries(user@).1;
    let mut j: usize = 0;
    while j < system.len()
        invariant
            j <= system@.len(),
            text::views(seen@).to_set() == seen_set,
            app_views(apps@) == user_apps + system_entries(system@.take(j as int), seen_set),
        decreases system.len() - j,
    {
        proof {
            let t = system@.take(j + 1);
            assert(t.drop_last() == system@.take(j as int));
            assert(t.last() == system@[j as int]);
        }
        let n = chars_of(system[j].file_name.as_str());
        if !name_in(&seen, &n) {
            match entry_of(&system[j]) {
                Some(a) => {
                    let ghost before = app_views(apps@);
                    let ghost av = a@;
                    apps.push(a);
                    assert(app_views(apps@) =~= before.push(av));
                },
                None => {},
            }
        }
        j = j + 1;
    }
    assert(system@.take(system@.len() as int) == system@);
    apps
}

// ---------------------------------------------------------------------------
// Switching an entry on or off
// ---------------------------------------------------------------------------

fn autostart_key_chars() -> (r: Vec<char>)
    ensures
        r@ == autostart_key(),
{
    let r: Vec<char> = vec![
        'X', '-', 'G', 'N', 'O', 'M', 'E', '-', 'A', 'u', 't', 'o', 's', 't', 'a', 'r', 't', '-',
        'e', 'n', 'a', 'b', 'l', 'e', 'd', '=',
    ];
    assert(r@ == autostart_key());
    r
}

/// `bool` as `Display` writes it.
pub open spec fn bool_text(b: bool) -> Seq<char> {
    if b {
        seq!['t', 'r', 'u', 'e']
    } else {
        seq!['f', 'a', 'l', 's', 'e']
    }
}

pub open spec fn auto_line(enable: bool) -> Seq<char> {
    autostart_key() + bool_text(enable)
}

pub open spec fn hidden_line(hidden: bool) -> Seq<char> {
    hidden_key() + bool_text(hidden)
}

/// A line as it is rewritten: the autostart key gets the new state, the
/// `Hidden` key its opposite, other lines stay.
pub open spec fn rewrite_line(l: Seq<char>, enable: bool) -> Seq<char> {
    if text::has_prefix(l, autostart_key()) {
        auto_line(enable)
    } else if text::has_prefix(l, hidden_key()) {
        hidden_line(!enable)
    } else {
        l
    }
}

pub open spec fn header() -> Seq<char> {
    "[Desktop Entry]"@
}

/// Index of the first line that is `[Desktop Entry]` once trimmed (the
/// number of lines when there is none).
pub open spec fn header_pos(ls: Seq<Seq<char>>) -> nat
    decreases ls.len(),
{
    if ls.len() == 0 {
        0
    } else if text::trim(ls[0]) == header() {
        0
    } else {
        1 + header_pos(ls.drop_first())
    }
}

/// Inserts a line right after the `[Desktop Entry]` header, or at the end
/// when there is no header.
pub open spec fn insert_after_header(ls: Seq<Seq<char>>, line: Seq<char>) -> Seq<Seq<char>> {
    let p = header_pos(ls);
    if p < ls.len() {
        ls.insert(p + 1int, line)
    } else {
        ls.push(line)
    }
}

pub open spec fn has_key_line(ls: Seq<Seq<char>>, key: Seq<char>) -> bool {
    exists|i: int| 0 <= i < ls.len() && text::has_prefix(#[trigger] ls[i], key)
}

pub open spec fn rewrite_all(ls: Seq<Seq<char>>, enable: bool) -> Seq<Seq<char>> {
    ls.map_values(|l: Seq<char>| rewrite_line(l, enable))
}

/// The lines of a desktop file after switching it to `enable`: keys are
/// rewritten in place; a missing autostart key is added after the header;
/// when disabling, a missing `Hidden` key is added as `Hidden=true`.
pub open spec fn rewrite_lines(ls: Seq<Seq<char>>, enable: bool) -> Seq<Seq<char>> {
    let r = rewrite_all(ls, enable);
    let r1 = if has_key_line(ls, autostart_key()) {
        r
    } else {
        insert_after_header(r, auto_line(enable))
    };
    if has_key_line(ls, hidden_key()) || enable {
        r1
    } else {
        insert_after_header(r1, hidden_line(true))
    }
}

/// Lines joined with `\n`.
pub open spec fn join_lines(ls: Seq<Seq<char>>) -> Seq<char>
    decreases ls.len(),
{
    if ls.len() == 0 {
        seq![]
    } else if ls.len() == 1 {
        ls[0]
    } else {
        join_lines(ls.drop_last()) + seq!['\n'] + ls.last()
    }
}

/// Text of the desktop file `content` after switching it to `enable`.
pub open spec fn autostart_spec(content: Seq<char>, enable: bool) -> Seq<char> {
    join_lines(rewrite_lines(text::lines(content), enable))
}

fn header_index(ls: &Vec<Vec<char>>) -> (r: usize)
    ensures
        r == header_pos(text::views(ls@)),
        r <= ls@.len(),
{
    let hk = chars_of("[Desktop Entry]");
    let ghost lv = text::views(ls@);
    let mut i: usize = 0;
    while i < ls.len()
        invariant
            i <= ls@.len(),
            lv == text::views(ls@),
            hk@ == header(),
            header_pos(lv) == i + header_pos(lv.skip(i as int)),
        decreases ls.len() - i,
    {
        let t = text::trim_chars(&ls[i]);
        assert(lv.skip(i as int)[0] == ls@[i as int]@);
        if text::chars_equal(&t, &hk) {
            return i;
        }
        assert(lv.skip(i as int).drop_first() == lv.skip(i + 1));
        i = i + 1;
    }
    assert(lv.skip(i as int).len() == 0);
    i
}

fn insert_line(ls: &mut Vec<Vec<char>>, line: Vec<char>)
    ensures
        text::views(final(ls)@) == insert_after_header(text::views(old(ls)@), line@),
{
    let p = header_index(ls);
    let ghost before = text::views(ls@);
    let ghost lv = line@;
    if p < ls.len() {
        ls.insert(p + 1, line);
        assert(text::views(ls@) =~= before.insert(p + 1, lv));
    } else {
        ls.push(line);
        assert(text::views(ls@) =~= before.push(lv));
    }
}

fn bool_chars(out: &mut Vec<char>, b: bool)
    ensures
        final(out)@ == old(out)@ + bool_text(b),
{
    if b {
        out.push('t');
        out.push('r');
        out.push('u');
        out.push('e');
    } else {
        out.push('f');
        out.push('a');
        out.push('l');
        out.push('s');
        out.push('e');
    }
    assert(out@ =~= old(out)@ + bool_text(b));
}

fn key_value_line(key: &Vec<char>, b: bool) -> (r: Vec<char>)
    ensures
        r@ == key@ + bool_text(b),
{
    let mut out = text::sub_vec(key, 0, key.len());
    assert(key@.subrange(0, key@.len() as int) == key@);
    bool_chars(&mut out, b);
    out
}

fn join_exec(ls: &Vec<Vec<char>>) -> (r: Vec<char>)
    ensures
        r@ == join_lines(text::views(ls@)),
{
    let ghost lv = text::views(ls@);
    let mut out: Vec<char> = Vec::new();
    let mut i: usize = 0;
    while i < ls.len()
        invariant
            i <= ls@.len(),
            lv == text::views(ls@),
            out@ == join_lines(lv.take(i as int)),
        decreases ls.len() - i,
    {
        let ghost before = out@;
        if i > 0 {
            out.push('\n');
        }
        let mut j: usize = 0;
        let ghost mid = out@;
        while j < ls[i].len()
            invariant
                i < ls@.len(),
                j <= ls@[i as int]@.len(),
                out@ == mid + ls@[i as int]@.take(j as int),
            decreases ls@[i as int]@.len() - j,
        {
            out.push(ls[i][j]);
            assert(ls@[i as int]@.take(j + 1) == ls@[i as int]@.take(j as int).push(
                ls@[i as int]@[j as int],
            ));
            j = j + 1;
        }
        proof {
            assert(ls@[i as int]@.take(ls@[i as int]@.len() as int) == ls@[i as int]@);
            let t = lv.take(i + 1);
            assert(t.drop_last() == lv.take(i as int));
            assert(t.last() == ls@[i as int]@);
            if i == 0 {
                assert(t.len() == 1);
                assert(out@ == t[0]);
            }
        }
        i = i + 1;
    }
    assert(lv.take(lv.len() as int) == lv);
    out
}

// ---------------------------------------------------------------------------
// Where a switched entry is written
// ---------------------------------------------------------------------------

/// Where switching an entry writes, in the user's autostart directory.
pub struct StartupPlan {
    /// `~/.config/autostart`, created if missing.
    pub autostart_dir: String,
    /// The file in it that receives the switched entry.
    pub target_path: String,
    /// Whether the entry's file is first copied there (a system entry, or
    /// one that is not already that file).
    pub copy_first: bool,
}

pub open spec fn plan_fits(p: StartupPlan, app_path: Seq<char>, home: Seq<char>, name: Seq<char>) -> bool {
    let dir = paths::path_push(home, ".config/autostart"@);
    let target = paths::path_push(dir, name);
    &&& p.autostart_dir@ == dir
    &&& p.target_path@ == target
    &&& p.copy_first == (paths::path_starts_with(app_path, "/etc/xdg/autostart"@)
        || paths::components(app_path) != paths::components(target))
}

/// Plans switching the entry whose file is `app_path`, with the home
/// directory `home` (its error text when `HOME` could not be read). Fails
/// when the path has no file name, then when there is no home directory.
pub fn set_startup_plan(app_path: &str, home: Result<&str, &str>) -> (r: Result<StartupPlan, String>)
    ensures
        paths::file_name(app_path@) is None ==> (r matches Err(e) && e@
            == "Invalid desktop file name"@),
        paths::file_name(app_path@) matches Some(n) ==> match home {
            Err(he) => r matches Err(e) && e@ == "HOME environment variable missing: "@ + he@,
            Ok(h) => r matches Ok(p) && plan_fits(p, app_path@, h@, n),
        },
{
    let name = match paths::file_name_text(app_path) {
        Some(n) => n,
        None => return Err(String::from_str("Invalid desktop file name")),
    };
    let h = match home {
        Ok(h) => h,
        Err(he) => {
            let mut v: Vec<char> = Vec::new();
            push_str(&mut v, "HOME environment variable missing: ");
            push_str(&mut v, he);
            return Err(string_of(&v));
        },
    };
    let dir = paths::path_push_exec(&chars_of(h), &chars_of(".config/autostart"));
    let target = paths::path_push_exec(&dir, &chars_of(name.as_str()));
    let dir_s = string_of(&dir);
    let target_s = string_of(&target);
    let copy_first = paths::starts_with_path(app_path, "/etc/xdg/autostart") || !paths::same_path(
        app_path,
        target_s.as_str(),
    );
    Ok(StartupPlan { autostart_dir: dir_s, target_path: target_s, copy_first })
}

/// The file operations of switching an entry, named in their errors.
#[derive(Debug, Clone, Copy, PartialEq, Eq, Structural)]
pub enum StartupStep {
    Copy,
    Read,
    Write,
}

pub open spec fn step_prefix(step: StartupStep) -> Seq<char> {
    match step {
        StartupStep::Copy => "Failed to copy autostart file locally: "@,
        StartupStep::Read => "Failed to read autostart file content: "@,
        StartupStep::Write => "Failed to write autostart configuration: "@,
    }
}

/// The error reported when `step` fails with the error text `e`.
pub fn startup_step_error(step: StartupStep, e: &str) -> (r: String)
    ensures
        r@ == step_prefix(step) + e@,
{
    let mut v: Vec<char> = Vec::new();
    match step {
        StartupStep::Copy => push_str(&mut v, "Failed to copy autostart file locally: "),
        StartupStep::Read => push_str(&mut v, "Failed to read autostart file content: "),
        StartupStep::Write => push_str(&mut v, "Failed to write autostart configuration: "),
    }
    push_str(&mut v, e);
    string_of(&v)
}

// ---------------------------------------------------------------------------
// Reading back what was written
// ---------------------------------------------------------------------------

/// A trimmed line that switches the entry off when the file is read.
pub open spec fn disables(t: Seq<char>) -> bool {
    &&& !text::has_prefix(t, name_key())
    &&& !text::has_prefix(t, exec_key())
    &&& if text::has_prefix(t, autostart_key()) {
        text::lower_text(text::trim(t.skip(26))) == "false"@
    } else {
        text::has_prefix(t, hidden_key()) && text::lower_text(text::trim(t.skip(7))) == "true"@
    }
}

/// Whether the entry of a desktop file with this text is enabled when read.
pub open spec fn enabled_in(content: Seq<char>) -> bool {
    parse_lines(text::lines(content)).2
}

/// No line that switching leaves as it is (one starting with neither key)
/// switches the entry off once trimmed.
pub open spec fn untouched_lines_enable(content: Seq<char>) -> bool {
    let ls = text::lines(content);
    forall|i: int|
        0 <= i < ls.len() && !text::has_prefix(#[trigger] ls[i], autostart_key())
            && !text::has_prefix(ls[i], hidden_key()) ==> !disables(text::trim(ls[i]))
}

pub open spec fn no_newline(l: Seq<char>) -> bool {
    forall|k: int| 0 <= k < l.len() ==> l[k] != '\n'
}

proof fn lemma_parse_enabled(ls: Seq<Seq<char>>)
    ensures
        parse_lines(ls).2 <==> (forall|i: int|
            0 <= i < ls.len() ==> !disables(text::trim(#[trigger] ls[i]))),
    decreases ls.len(),
{
    if ls.len() > 0 {
        lemma_parse_enabled(ls.drop_last());
        let l = text::trim(ls.last());
        assert(parse_lines(ls).2 == (parse_lines(ls.drop_last()).2 && !disables(l)));
        if parse_lines(ls).2 {
            assert forall|i: int| 0 <= i < ls.len() implies !disables(
                text::trim(#[trigger] ls[i]),
            ) by {
                if i < ls.len() - 1 {
                    assert(ls.drop_last()[i] == ls[i]);
                }
            }
        } else if parse_lines(ls.drop_last()).2 {
            assert(disables(text::trim(ls[ls.len() - 1])));
        } else {
            let i = choose|i: int|
                0 <= i < ls.drop_last().len() && disables(text::trim(#[trigger] ls.drop_last()[i]));
            assert(ls.drop_last()[i] == ls[i]);
        }
    }
}

proof fn lemma_trim_id(s: Seq<char>)
    requires
        s.len() > 0,
        !text::is_white(s[0]),
        !text::is_white(s.last()),
    ensures
        text::trim(s) == s,
{
    text::lemma_first_such(s, text::not_white_fn(), 0);
    assert(text::trim_start(s) =~= s);
    text::lemma_trail_such(s, text::white_fn(), 0);
    assert(text::trim_end(s) =~= s);
}

proof fn lemma_trim_strip_cr(l: Seq<char>)
    ensures
        text::trim(text::strip_cr(l)) == text::trim(l),
{
    if l.len() > 0 && l.last() == '\r' {
        let m = l.drop_last();
        let nw = text::not_white_fn();
        text::lemma_first_such_props(m, nw);
        let k = text::first_such(m, nw);
        assert forall|j: int| 0 <= j < k implies !nw(#[trigger] l[j]) by {
            assert(l[j] == m[j]);
        }
        if k < m.len() {
            assert(l[k as int] == m[k as int]);
            text::lemma_first_such(l, nw, k as int);
            let x = m.skip(k as int);
            let y = l.skip(k as int);
            assert(y.drop_last() =~= x);
            assert(y.last() == '\r');
            assert(text::is_white(y.last()));
            assert(text::trail_such(y, text::white_fn()) == 1 + text::trail_such(
                x,
                text::white_fn(),
            ));
            let t = text::trail_such(x, text::white_fn());
            text::lemma_trail_such_len(x, text::white_fn());
            assert(text::trim_end(y) == y.take(y.len() - 1 - t));
            assert(y.take(y.len() - 1 - t) =~= x.take(x.len() - t));
            assert(text::trim_end(y) =~= text::trim_end(x));
        } else {
            assert(!nw(l[m.len() as int]));
            assert forall|j: int| 0 <= j < l.len() implies !nw(#[trigger] l[j]) by {
                if j < m.len() {
                    assert(l[j] == m[j]);
                }
            }
            text::lemma_first_such(l, nw, l.len() as int);
            assert(text::trim_start(l).len() == 0);
            assert(text::trim_start(m).len() == 0);
            assert(text::trim(l) =~= text::trim(m));
        }
    }
}

proof fn lemma_join_front(a: Seq<char>, rest: Seq<Seq<char>>)
    requires
        rest.len() > 0,
    ensures
        join_lines(seq![a] + rest) == a + seq!['\n'] + join_lines(rest),
    decreases rest.len(),
{
    let ls = seq![a] + rest;
    assert(ls.last() == rest.last());
    assert(ls.len() > 1);
    if rest.len() == 1 {
        assert(ls.drop_last() =~= seq![a]);
        assert(join_lines(seq![a]) == a);
        assert(join_lines(rest) == rest[0]);
        assert(join_lines(ls) == join_lines(ls.drop_last()) + seq!['\n'] + ls.last());
    } else {
        lemma_join_front(a, rest.drop_last());
        assert(ls.drop_last() =~= seq![a] + rest.drop_last());
        assert(join_lines(ls) == join_lines(ls.drop_last()) + seq!['\n'] + ls.last());
        assert(join_lines(rest) == join_lines(rest.drop_last()) + seq!['\n'] + rest.last());
        assert(join_lines(ls) =~= a + seq!['\n'] + join_lines(rest));
    }
}

proof fn lemma_lines_front(a: Seq<char>, t: Seq<char>)
    requires
        no_newline(a),
    ensures
        text::lines(a + seq!['\n'] + t) == seq![text::strip_cr(a)] + text::lines(t),
{
    let s = a + seq!['\n'] + t;
    assert forall|j: int| 0 <= j < a.len() implies !(#[trigger] text::eq_fn('\n')(s[j])) by {
        assert(s[j] == a[j]);
    }
    text::lemma_first_such(s, text::eq_fn('\n'), a.len() as int);
    assert(s.take(a.len() as int) =~= a);
    assert(s.skip(a.len() + 1int) =~= t);
}

proof fn lemma_lines_single(a: Seq<char>)
    requires
        no_newline(a),
    ensures
        text::lines(a) == (if a.len() == 0 {
            seq![]
        } else {
            seq![a]
        }),
{
    assert forall|j: int| 0 <= j < a.len() implies !(#[trigger] text::eq_fn('\n')(a[j])) by {}
    text::lemma_first_such(a, text::eq_fn('\n'), a.len() as int);
}

/// Re-reading joined lines: every line read back is one of the joined lines,
/// possibly without a final `'\r'`, and each non-empty joined line that does
/// not end in `'\r'` is read back.
proof fn lemma_lines_join(ls: Seq<Seq<char>>, p: spec_fn(Seq<char>) -> bool, x: Seq<char>)
    requires
        forall|i: int| 0 <= i < ls.len() ==> no_newline(#[trigger] ls[i]),
        forall|i: int| 0 <= i < ls.len() ==> #[trigger] p(ls[i]),
        forall|i: int| 0 <= i < ls.len() ==> p(text::strip_cr(#[trigger] ls[i])),
    ensures
        forall|j: int|
            0 <= j < text::lines(join_lines(ls)).len() ==> #[trigger] p(
                text::lines(join_lines(ls))[j],
            ),
        x.len() > 0 && text::strip_cr(x) == x && ls.contains(x) ==> text::lines(
            join_lines(ls),
        ).contains(x),
    decreases ls.len(),
{
    if ls.len() == 1 {
        assert(join_lines(ls) == ls[0]);
        lemma_lines_single(ls[0]);
        assert(p(ls[0]));
        if ls.contains(x) {
            assert(ls[0] == x);
        }
    } else if ls.len() > 1 {
        let a = ls[0];
        let rest = ls.drop_first();
        assert(ls =~= seq![a] + rest);
        lemma_join_front(a, rest);
        lemma_lines_front(a, join_lines(rest));
        assert forall|i: int| 0 <= i < rest.len() implies no_newline(#[trigger] rest[i]) by {
            assert(rest[i] == ls[i + 1]);
        }
        assert forall|i: int| 0 <= i < rest.len() implies #[trigger] p(rest[i]) by {
            assert(rest[i] == ls[i + 1]);
        }
        assert forall|i: int| 0 <= i < rest.len() implies p(text::strip_cr(#[trigger] rest[i])) by {
            assert(rest[i] == ls[i + 1]);
        }
        lemma_lines_join(rest, p, x);
        let out = text::lines(join_lines(ls));
        let tail = text::lines(join_lines(rest));
        assert(out == seq![text::strip_cr(a)] + tail);
        assert(p(ls[0]) && p(text::strip_cr(ls[0])));
        assert forall|j: int| 0 <= j < out.len() implies #[trigger] p(out[j]) by {
            if j > 0 {
                assert(out[j] == tail[j - 1]);
            }
        }
        if x.len() > 0 && text::strip_cr(x) == x && ls.contains(x) {
            let i = choose|i: int| 0 <= i < ls.len() && ls[i] == x;
            if i == 0 {
                assert(out[0] == x);
            } else {
                assert(rest[i - 1] == x);
                let j = choose|j: int| 0 <= j < tail.len() && tail[j] == x;
                assert(out[j + 1] == x);
            }
        }
    }
}

/// Lowercasing keeps `"false"` and `"true"`, the two values that the reader
/// compares against.
proof fn lemma_lower_keeps_values()
    ensures
        text::lower_text("false"@) == "false"@,
        text::lower_text("true"@) == "true"@,
{
    reveal_strlit("false");
    reveal_strlit("true");
    assert(text::is_ascii_seq("false"@));
    assert(text::is_ascii_seq("true"@));
    assert("false"@.map_values(|c: char| text::ascii_lower(c)) =~= "false"@);
    assert("true"@.map_values(|c: char| text::ascii_lower(c)) =~= "true"@);
}

proof fn lemma_insert_header(ls: Seq<Seq<char>>, line: Seq<char>, p: spec_fn(Seq<char>) -> bool)
    requires
        forall|k: int| 0 <= k < ls.len() ==> #[trigger] p(ls[k]),
        p(line),
    ensures
        forall|k: int|
            0 <= k < insert_after_header(ls, line).len() ==> #[trigger] p(
                insert_after_header(ls, line)[k],
            ),
        insert_after_header(ls, line).contains(line),
        forall|x: Seq<char>| ls.contains(x) ==> #[trigger] insert_after_header(ls, line).contains(x),
{
    let h: int = header_pos(ls) as int;
    let r = insert_after_header(ls, line);
    if h < ls.len() {
        ls.insert_ensures(h + 1, line);
        assert forall|k: int| 0 <= k < r.len() implies #[trigger] p(r[k]) by {
            if k < h + 1 {
                assert(r[k] == ls[k]);
            } else if k > h + 1 {
                assert(r[k] == ls[k - 1]);
            }
        }
        assert(r[h + 1] == line);
        assert forall|x: Seq<char>| ls.contains(x) implies #[trigger] r.contains(x) by {
            let i = choose|i: int| 0 <= i < ls.len() && ls[i] == x;
            if i < h + 1 {
                assert(r[i] == x);
            } else {
                assert(r[i + 1] == x);
            }
        }
    } else {
        assert forall|k: int| 0 <= k < r.len() implies #[trigger] p(r[k]) by {
            if k < ls.len() {
                assert(r[k] == ls[k]);
            }
        }
        assert(r[ls.len() as int] == line);
        assert forall|x: Seq<char>| ls.contains(x) implies #[trigger] r.contains(x) by {
            let i = choose|i: int| 0 <= i < ls.len() && ls[i] == x;
            assert(r[i] == x);
        }
    }
}

proof fn lemma_lines_plain(s: Seq<char>)
    ensures
        forall|k: int| 0 <= k < text::lines(s).len() ==> no_newline(#[trigger] text::lines(s)[k]),
    decreases s.len(),
{
    let ls = text::lines(s);
    if s.len() > 0 {
        text::lemma_first_such_props(s, text::eq_fn('\n'));
        let q = text::pos_of(s, '\n');
        if q == s.len() {
            assert forall|j: int| 0 <= j < s.len() implies s[j] != '\n' by {
                assert(!text::eq_fn('\n')(s[j]));
            }
        } else {
            lemma_lines_plain(s.skip(q + 1int));
            let first = text::strip_cr(s.take(q as int));
            assert forall|j: int| 0 <= j < first.len() implies first[j] != '\n' by {
                assert(first[j] == s[j]);
                assert(!text::eq_fn('\n')(s[j]));
            }
            assert forall|k: int| 0 <= k < ls.len() implies no_newline(#[trigger] ls[k]) by {
                if k > 0 {
                    assert(ls[k] == text::lines(s.skip(q + 1int))[k - 1]);
                }
            }
        }
    }
}

pub open spec fn plain() -> spec_fn(Seq<char>) -> bool {
    |l: Seq<char>| no_newline(l)
}

proof fn lemma_rewritten_lines_plain(content: Seq<char>, enable: bool)
    ensures
        forall|k: int|
            0 <= k < rewrite_lines(text::lines(content), enable).len() ==> no_newline(
                #[trigger] rewrite_lines(text::lines(content), enable)[k],
            ),
{
    let orig = text::lines(content);
    lemma_lines_plain(content);
    let q = plain();
    assert(q(auto_line(enable)));
    assert(q(hidden_line(true)));
    assert(q(hidden_line(false)));
    let r = rewrite_all(orig, enable);
    assert forall|k: int| 0 <= k < r.len() implies #[trigger] q(r[k]) by {
        assert(r[k] == rewrite_line(orig[k], enable));
        assert(q(orig[k]));
    }
    let r1 = if has_key_line(orig, autostart_key()) {
        r
    } else {
        lemma_insert_header(r, auto_line(enable), q);
        insert_after_header(r, auto_line(enable))
    };
    assert forall|k: int| 0 <= k < r1.len() implies #[trigger] q(r1[k]) by {}
    if !(has_key_line(orig, hidden_key()) || enable) {
        lemma_insert_header(r1, hidden_line(true), q);
    }
    let r2 = rewrite_lines(orig, enable);
    assert forall|k: int| 0 <= k < r2.len() implies no_newline(#[trigger] r2[k]) by {
        assert(q(r2[k]));
    }
}

pub open spec fn keeps_enabled() -> spec_fn(Seq<char>) -> bool {
    |l: Seq<char>| !disables(text::trim(l))
}

/// Reading back a file switched on: every line of the written text leaves the
/// entry enabled.
proof fn lemma_switched_on(content: Seq<char>)
    requires
        untouched_lines_enable(content),
        text::lower_text("false"@) == "false"@,
        text::lower_text("true"@) == "true"@,
    ensures
        enabled_in(autostart_spec(content, true)),
{
    reveal_strlit("false");
    reveal_strlit("true");
    let orig = text::lines(content);
    let p = keeps_enabled();
    let on = auto_line(true);
    let off = hidden_line(false);
    assert(on.skip(26) =~= "true"@);
    assert(off.skip(7) =~= "false"@);
    lemma_trim_id(on);
    lemma_trim_id(off);
    lemma_trim_id("true"@);
    lemma_trim_id("false"@);
    assert(!text::has_prefix(on, name_key())) by {
        assert(on[0] != name_key()[0]);
    }
    assert(!text::has_prefix(on, exec_key())) by {
        assert(on[0] != exec_key()[0]);
    }
    assert(text::has_prefix(on, autostart_key())) by {
        assert(on.take(26) =~= autostart_key());
    }
    assert(!text::has_prefix(off, name_key())) by {
        assert(off[0] != name_key()[0]);
    }
    assert(!text::has_prefix(off, exec_key())) by {
        assert(off[0] != exec_key()[0]);
    }
    assert(!text::has_prefix(off, autostart_key())) by {
        assert(off[0] != autostart_key()[0]);
    }
    assert(p(on));
    assert(p(off));
    let r = rewrite_all(orig, true);
    assert forall|k: int| 0 <= k < r.len() implies #[trigger] p(r[k]) by {
        assert(r[k] == rewrite_line(orig[k], true));
    }
    let r1 = rewrite_lines(orig, true);
    if !has_key_line(orig, autostart_key()) {
        lemma_insert_header(r, on, p);
    }
    assert forall|k: int| 0 <= k < r1.len() implies #[trigger] p(r1[k]) by {}
    lemma_rewritten_lines_plain(content, true);
    assert forall|k: int| 0 <= k < r1.len() implies p(text::strip_cr(#[trigger] r1[k])) by {
        lemma_trim_strip_cr(r1[k]);
    }
    lemma_lines_join(r1, p, on);
    let back = text::lines(join_lines(r1));
    lemma_parse_enabled(back);
    assert forall|i: int| 0 <= i < back.len() implies !disables(text::trim(#[trigger] back[i])) by {
        assert(p(back[i]));
    }
}

pub open spec fn any_line() -> spec_fn(Seq<char>) -> bool {
    |l: Seq<char>| true
}

/// Reading back a file switched off: an `X-GNOME-Autostart-enabled=false`
/// line is read, so the entry is disabled.
proof fn lemma_switched_off(content: Seq<char>)
    requires
        text::lower_text("false"@) == "false"@,
    ensures
        !enabled_in(autostart_spec(content, false)),
{
    reveal_strlit("false");
    let orig = text::lines(content);
    let off = auto_line(false);
    assert(off.skip(26) =~= "false"@);
    lemma_trim_id(off);
    lemma_trim_id("false"@);
    assert(!text::has_prefix(off, name_key())) by {
        assert(off[0] != name_key()[0]);
    }
    assert(!text::has_prefix(off, exec_key())) by {
        assert(off[0] != exec_key()[0]);
    }
    assert(text::has_prefix(off, autostart_key())) by {
        assert(off.take(26) =~= autostart_key());
    }
    assert(disables(text::trim(off)));
    let t = any_line();
    let r = rewrite_all(orig, false);
    assert forall|k: int| 0 <= k < r.len() implies #[trigger] t(r[k]) by {}
    let r1 = if has_key_line(orig, autostart_key()) {
        let i = choose|i: int| 0 <= i < orig.len() && text::has_prefix(#[trigger] orig[i], autostart_key());
        assert(r[i] == off);
        r
    } else {
        lemma_insert_header(r, off, t);
        insert_after_header(r, off)
    };
    assert(r1.contains(off));
    assert forall|k: int| 0 <= k < r1.len() implies #[trigger] t(r1[k]) by {}
    if !has_key_line(orig, hidden_key()) {
        lemma_insert_header(r1, hidden_line(true), t);
    }
    let r2 = rewrite_lines(orig, false);
    assert(r2.contains(off));
    lemma_rewritten_lines_plain(content, false);
    assert(text::strip_cr(off) == off);
    lemma_lines_join(r2, t, off);
    let back = text::lines(join_lines(r2));
    let j = choose|j: int| 0 <= j < back.len() && back[j] == off;
    lemma_parse_enabled(back);
    assert(disables(text::trim(back[j])));
}

/// Switching an entry and reading the file back gives the new state: after
/// switching off, the entry read from the written text is disabled; after
/// switching on, it is enabled, provided no line that switching leaves as it
/// is (such as an indented key) disables it.
pub proof fn lemma_switch_read_back(
    content: Seq<char>,
    enable: bool,
    path: Seq<char>,
    file_stem: Option<Seq<char>>,
)
    requires
        enable ==> untouched_lines_enable(content),
    ensures
        desktop_entry_spec(autostart_spec(content, enable), path, file_stem) matches Some(a)
            ==> a.enabled == enable,
{
    lemma_lower_keeps_values();
    if enable {
        lemma_switched_on(content);
    } else {
        lemma_switched_off(content);
    }
}

/// The text of a desktop file after switching its entry to `enable`: every
/// `X-GNOME-Autostart-enabled=` line is set to `enable` and every `Hidden=`
/// line to its opposite; if there was no autostart line one is added after
/// the `[Desktop Entry]` header (or at the end), and when disabling without a
/// `Hidden=` line, `Hidden=true` is added the same way. Lines are joined with
/// `\n`.
pub fn autostart_content(content: &str, enable: bool) -> (r: String)
    ensures
        r@ == autostart_spec(content@, enable),
        !enable ==> !enabled_in(r@),
        enable && untouched_lines_enable(content@) ==> enabled_in(r@),
{
    let v = chars_of(content);
    let mut ls = text::split_lines(&v);
    let ghost orig = text::views(ls@);
    let auto_k = autostart_key_chars();
    let hidden_k: Vec<char> = vec!['H', 'i', 'd', 'd', 'e', 'n', '='];
    let mut found_enabled = false;
    let mut found_hidden = false;
    let mut i: usize = 0;
    while i < ls.len()
        invariant
            i <= ls@.len(),
            ls@.len() == orig.len(),
            auto_k@ == autostart_key(),
            hidden_k@ == hidden_key(),
            forall|k: int| 0 <= k < i ==> #[trigger] ls@[k]@ == rewrite_line(orig[k], enable),
            forall|k: int| i <= k < ls@.len() ==> #[trigger] ls@[k]@ == orig[k],
            found_enabled == has_key_line(orig.take(i as int), autostart_key()),
            found_hidden == has_key_line(orig.take(i as int), hidden_key()),
        decreases ls.len() - i,
    {
        let ghost t = orig.take(i + 1);
        assert(t[i as int] == orig[i as int]);
        assert forall|k: int| 0 <= k < i implies #[trigger] t[k] == orig.take(i as int)[k] by {}
        if text::starts_with(&ls[i], &auto_k) {
            let nl = key_value_line(&auto_k, enable);
            ls.set(i, nl);
            found_enabled = true;
            assert(t[i as int] == orig[i as int]);
        } else {
            if text::starts_with(&ls[i], &hidden_k) {
                let nl = key_value_line(&hidden_k, !enable);
                ls.set(i, nl);
                found_hidden = true;
            }
        }
        proof {
            assert(has_key_line(t, autostart_key()) == (has_key_line(
                orig.take(i as int),
                autostart_key(),
            ) || text::has_prefix(orig[i as int], autostart_key()))) by {
                if text::has_prefix(orig[i as int], autostart_key()) {
                    assert(text::has_prefix(t[i as int], autostart_key()));
                }
                if has_key_line(t, autostart_key()) && !text::has_prefix(
                    orig[i as int],
                    autostart_key(),
                ) {
                    let k = choose|k: int| 0 <= k < t.len() && text::has_prefix(
                        #[trigger] t[k],
                        autostart_key(),
                    );
                    assert(orig.take(i as int)[k] == t[k]);
                }
            }
            assert(has_key_line(t, hidden_key()) == (has_key_line(orig.take(i as int), hidden_key())
                || text::has_prefix(orig[i as int], hidden_key()))) by {
                if text::has_prefix(orig[i as int], hidden_key()) {
                    assert(text::has_prefix(t[i as int], hidden_key()));
                }
                if has_key_line(t, hidden_key()) && !text::has_prefix(orig[i as int], hidden_key()) {
                    let k = choose|k: int| 0 <= k < t.len() && text::has_prefix(
                        #[trigger] t[k],
                        hidden_key(),
                    );
                    assert(orig.take(i as int)[k] == t[k]);
                }
            }
            if text::has_prefix(orig[i as int], autostart_key()) {
                assert(orig[i as int][0] == 'X');
                assert(!text::has_prefix(orig[i as int], hidden_key()));
            }
        }
        i = i + 1;
    }
    assert(orig.take(orig.len() as int) == orig);
    assert(text::views(ls@) =~= rewrite_all(orig, enable));
    if !found_enabled {
        let nl = key_value_line(&auto_k, enable);
        insert_line(&mut ls, nl);
    }
    if !found_hidden && !enable {
        let nl = key_value_line(&hidden_k, true);
        insert_line(&mut ls, nl);
    }
    let out = join_exec(&ls);
    proof {
        lemma_lower_keeps_values();
    }
    proof {
        if enable {
            if untouched_lines_enable(content@) {
                lemma_switched_on(content@);
            }
        } else {
            lemma_switched_off(content@);
        }
    }
    string_of(&out)
}

} // verus!
