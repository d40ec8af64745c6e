//! Finding an icon for a process: the executables named by `.desktop`
//! files, the user's icon theme, and the icon files looked for in the usual
//! theme folders. The caller reads the files and tests which paths exist.
use vstd::prelude::*;

use crate::command::CommandOutcome;
use crate::paths;
use crate::text;
use crate::text::{chars_of, push_str, string_of};

verus! {

broadcast use vstd::seq_lib::group_seq_properties;

// ---------------------------------------------------------------------------
// Desktop entries
// ---------------------------------------------------------------------------

/// The command of an `Exec=` line: the text after the key (the whole line
/// when the key is missing), trimmed.
pub open spec fn exec_command(line: Seq<char>) -> Seq<char> {
    text::trim(
        if text::has_prefix(line, "Exec="@) {
            line.skip(5)
        } else {
            line
        },
    )
}

/// The program of a command: the text up to the closing quote when it
/// starts with `"`, else its first whitespace-separated word (empty when
/// there is none).
pub open spec fn first_token(s: Seq<char>) -> Seq<char> {
    if s.len() > 0 && s[0] == '"' {
        text::split(s.skip(1), '"')[0]
    } else {
        let w = text::words(s);
        if w.len() > 0 {
            w[0]
        } else {
            seq![]
        }
    }
}

/// The lowercase file name of the program that an `Exec=` line runs.
pub open spec fn bin_name_spec(line: Seq<char>) -> Option<Seq<char>> {
    let s = exec_command(line);
    let t = first_token(s);
    if s.len() == 0 || t.len() == 0 {
        None
    } else {
        match paths::file_name(t) {
            Some(n) => Some(text::lower_text(n)),
            None => None,
        }
    }
}

/// Extracts the lowercase name of the program that a desktop file's `Exec`
/// line runs.
pub fn extract_bin_name(exec_line: &str) -> (r: Option<String>)
    ensures
        text::opt_chars(r) == bin_name_spec(exec_line@),
{
    let v = chars_of(exec_line);
    let key: Vec<char> = vec!['E', 'x', 'e', 'c', '='];
    proof {
        reveal_strlit("Exec=");
        assert(key@ =~= "Exec="@);
    }
    let rest = if text::starts_with(&v, &key) {
        text::sub_vec(&v, 5, v.len())
    } else {
        text::sub_vec(&v, 0, v.len())
    };
    assert(v@.subrange(0, v@.len() as int) == v@);
    let s = text::trim_chars(&rest);
    if s.len() == 0 {
        return None;
    }
    let token: Vec<char> = if s[0] == '"' {
        let inner = text::sub_vec(&s, 1, s.len());
        let parts = text::split_char(&inner, '"');
        assert(text::split(inner@, '"').len() > 0);
        assert(text::views(parts@).len() == parts@.len());
        assert(text::views(parts@)[0] == parts@[0]@);
        text::sub_vec(&parts[0], 0, parts[0].len())
    } else {
        let ws = text::split_ws(&s);
        if ws.len() > 0 {
            assert(text::views(ws@)[0] == ws@[0]@);
            text::sub_vec(&ws[0], 0, ws[0].len())
        } else {
            Vec::new()
        }
    };
    proof {
        if s@[0] == '"' {
            assert(text::split(s@.skip(1), '"').len() > 0);
        }
    }
    assert(token@ =~= first_token(s@));
    if token.len() == 0 {
        return None;
    }
    let tstr = string_of(&token);
    match paths::file_name_of(tstr.as_str()) {
        Some(n) => Some(text::to_lower(string_of(&n).as_str())),
        None => None,
    }
}

/// The icon of an `Icon=` line (already trimmed): the text after the key,
/// trimmed, without surrounding double and then single quotes.
pub open spec fn icon_value(t: Seq<char>) -> Seq<char> {
    text::trim_char(text::trim_char(text::trim(t.skip(5)), '"'), '\'')
}

/// Program and icon read so far from a desktop file, whether the reader is
/// inside the `[Desktop Entry]` group, and whether it has both and stopped.
pub struct DesktopScan {
    pub program: Option<Seq<char>>,
    pub icon: Option<Seq<char>>,
    pub inside: bool,
    pub done: bool,
}

/// Reads the lines `ls` of a desktop file: only lines of the `[Desktop
/// Entry]` group count; an `Exec=` line sets the program (possibly to none),
/// an `Icon=` line with a non-empty value sets the icon; reading stops once
/// both are known.
pub open spec fn scan_desktop(ls: Seq<Seq<char>>) -> DesktopScan
    decreases ls.len(),
{
    if ls.len() == 0 {
        DesktopScan { program: None, icon: None, inside: false, done: false }
    } else {
        let st = scan_desktop(ls.drop_last());
        if st.done {
            st
        } else {
            let t = text::trim(ls.last());
            let inside = if t.len() > 0 && t[0] == '[' {
                t == "[Desktop Entry]"@
            } else {
                st.inside
            };
            if !inside {
                DesktopScan { inside: false, ..st }
            } else {
                let is_exec = text::has_prefix(t, "Exec="@);
                let program = if is_exec {
                    bin_name_spec(t)
                } else {
                    st.program
                };
                let icon = if !is_exec && text::has_prefix(t, "Icon="@) && icon_value(t).len()
                    > 0 {
                    Some(icon_value(t))
                } else {
                    st.icon
                };
                DesktopScan { program, icon, inside: true, done: program is Some && icon is Some }
            }
        }
    }
}

/// The (program, icon) pair that a desktop file with text `content` maps,
/// if it names both.
pub open spec fn desktop_pair(content: Seq<char>) -> Option<(Seq<char>, Seq<char>)> {
    let st = scan_desktop(text::lines(content));
    match (st.program, st.icon) {
        (Some(e), Some(i)) => Some((e, i)),
        _ => None,
    }
}

fn lit_chars(s: &str) -> (r: Vec<char>)
    ensures
        r@ == s@,
{
    chars_of(s)
}

/// Reads the program and icon named by a desktop file.
pub fn desktop_entry_pair(content: &str) -> (r: Option<(String, String)>)
    ensures
        match r {
            Some((e, i)) => desktop_pair(content@) == Some((e@, i@)),
            None => desktop_pair(content@) is None,
        },
{
    let v = chars_of(content);
    let ls = text::split_lines(&v);
    let ghost lv = text::views(ls@);
    let header = lit_chars("[Desktop Entry]");
    let exec_key = lit_chars("Exec=");
    let icon_key = lit_chars("Icon=");
    proof {
        reveal_strlit("Exec=");
        reveal_strlit("Icon=");
    }
    let mut program: Option<String> = None;
    let mut icon: Option<String> = None;
    let mut inside = false;
    let mut i: usize = 0;
    while i < ls.len()
        invariant
            i <= ls@.len(),
            lv == text::views(ls@),
            lv == text::lines(content@),
            header@ == "[Desktop Entry]"@,
            exec_key@ == "Exec="@,
            icon_key@ == "Icon="@,
            exec_key@.len() == 5,
            icon_key@.len() == 5,
            scan_desktop(lv.take(i as int)) == (DesktopScan {
                program: text::opt_chars(program),
                icon: text::opt_chars(icon),
                inside,
                done: false,
            }),
            !(program is Some && icon is Some),
        decreases ls.len() - i,
    {
        let ghost t = lv.take(i + 1);
        assert(t.drop_last() == lv.take(i as int));
        assert(t.last() == ls@[i as int]@);
        let line = text::trim_chars(&ls[i]);
        if line.len() > 0 && line[0] == '[' {
            inside = text::chars_equal(&line, &header);
        }
        if inside {
            if text::starts_with(&line, &exec_key) {
                program = extract_bin_name(string_of(&line).as_str());
            } else if text::starts_with(&line, &icon_key) {
                let after = text::sub_vec(&line, 5, line.len());
                let v1 = text::trim_chars(&after);
                let v2 = text::trim_char_chars(&v1, '"');
                let v3 = text::trim_char_chars(&v2, '\'');
                assert(v3@ == icon_value(line@));
                if v3.len() > 0 {
                    icon = Some(string_of(&v3));
                }
            }
            if program.is_some() && icon.is_some() {
                assert(scan_desktop(t).done);
                assert(lv.take(i + 1) == t);
                proof {
                    lemma_scan_done(lv, (i + 1) as int);
                }
                assert(lv.take(lv.len() as int) == lv);
                return match (program, icon) {
                    (Some(e), Some(c)) => Some((e, c)),
                    _ => None,
                };
            }
        }
        i = i + 1;
    }
    assert(lv.take(lv.len() as int) == lv);
    None
}

/// Once the reader has stopped, later lines change nothing.
proof fn lemma_scan_done(ls: Seq<Seq<char>>, k: int)
    requires
        0 <= k <= ls.len(),
        scan_desktop(ls.take(k)).done,
    ensures
        scan_desktop(ls) == scan_desktop(ls.take(k)),
    decreases ls.len() - k,
{
    if k < ls.len() {
        let t = ls.take(k + 1);
        assert(t.drop_last() == ls.take(k));
        lemma_scan_done(ls, k + 1);
    } else {
        assert(ls.take(k) == ls);
    }
}

// ---------------------------------------------------------------------------
// The active icon theme
// ---------------------------------------------------------------------------

pub open spec fn theme_key() -> Seq<char> {
    "gtk-icon-theme-name"@
}

/// The theme named by the lines of a GTK `settings.ini`: the first line
/// whose trimmed text starts with `gtk-icon-theme-name` and that holds an
/// `=` gives the text between its first and second `=`, trimmed, without
/// surrounding double and then single quotes.
pub open spec fn settings_theme(ls: Seq<Seq<char>>) -> Option<Seq<char>>
    decreases ls.len(),
{
    if ls.len() == 0 {
        None
    } else {
        let parts = text::split(ls[0], '=');
        if text::has_prefix(text::trim(ls[0]), theme_key()) && parts.len() >= 2 {
            Some(text::trim_char(text::trim_char(text::trim(parts[1]), '"'), '\''))
        } else {
            settings_theme(ls.drop_first())
        }
    }
}

/// The icon theme set in the text of `~/.config/gtk-3.0/settings.ini`.
pub fn theme_from_settings(settings: &str) -> (r: Option<String>)
    ensures
        text::opt_chars(r) == settings_theme(text::lines(settings@)),
{
    let v = chars_of(settings);
    let ls = text::split_lines(&v);
    let ghost lv = text::views(ls@);
    let key = lit_chars("gtk-icon-theme-name");
    let mut i: usize = 0;
    while i < ls.len()
        invariant
            i <= ls@.len(),
            lv == text::views(ls@),
            lv == text::lines(settings@),
            key@ == theme_key(),
            settings_theme(lv) == settings_theme(lv.skip(i as int)),
        decreases ls.len() - i,
    {
        assert(lv.skip(i as int)[0] == ls@[i as int]@);
        let t = text::trim_chars(&ls[i]);
        if text::starts_with(&t, &key) {
            let parts = text::split_char(&ls[i], '=');
            if parts.len() >= 2 {
                assert(text::views(parts@)[1] == parts@[1]@);
                let a = text::trim_chars(&parts[1]);
                let b = text::trim_char_chars(&a, '"');
                let c = text::trim_char_chars(&b, '\'');
                return Some(string_of(&c));
            }
        }
        assert(lv.skip(i as int).drop_first() == lv.skip(i + 1));
        i = i + 1;
    }
    None
}

/// The icon theme from the outcome of `gsettings get
/// org.gnome.desktop.interface icon-theme`: its output trimmed, without
/// surrounding single and then double quotes, when it succeeded and that is
/// not empty.
pub fn theme_from_gsettings(outcome: CommandOutcome) -> (r: Option<String>)
    ensures
        text::opt_chars(r) == match outcome {
            CommandOutcome::Ran { success, stdout, .. } => {
                let t = text::trim_char(text::trim_char(text::trim(stdout@), '\''), '"');
                if success && t.len() > 0 {
                    Some(t)
                } else {
                    None
                }
            },
            CommandOutcome::NotStarted { .. } => None,
        },
{
    match outcome {
        CommandOutcome::Ran { success, stdout, stderr: _ } => {
            if !success {
                return None;
            }
            let v = chars_of(stdout.as_str());
            let a = text::trim_chars(&v);
            let b = text::trim_char_chars(&a, '\'');
            let c = text::trim_char_chars(&b, '"');
            if c.len() == 0 {
                None
            } else {
                Some(string_of(&c))
            }
        },
        CommandOutcome::NotStarted { error: _ } => None,
    }
}


// ---------------------------------------------------------------------------
// Icon files
// ---------------------------------------------------------------------------

pub open spec fn default_themes() -> Seq<Seq<char>> {
    seq!["hicolor"@, "Papirus"@, "Yaru"@, "breeze"@, "Adwaita"@, "gnome"@]
}

pub open spec fn icon_subdirs() -> Seq<Seq<char>> {
    seq![
        "48x48/apps"@,
        "scalable/apps"@,
        "32x32/apps"@,
        "64x64/apps"@,
        "128x128/apps"@,
        "256x256/apps"@,
        "512x512/apps"@,
        "apps"@,
        "apps/48"@,
        "apps/scalable"@,
    ]
}

pub open spec fn icon_extensions() -> Seq<Seq<char>> {
    seq!["png"@, "svg"@, "jpg"@, "jpeg"@, "xpm"@]
}

/// `list` followed by the names of `more` that it does not hold yet.
pub open spec fn add_missing(list: Seq<Seq<char>>, more: Seq<Seq<char>>) -> Seq<Seq<char>>
    decreases more.len(),
{
    if more.len() == 0 {
        list
    } else {
        let l = add_missing(list, more.drop_last());
        if l.contains(more.last()) {
            l
        } else {
            l.push(more.last())
        }
    }
}

/// Themes searched, in order: the active theme, then the usual ones.
pub open spec fn themes_spec(active: Option<Seq<char>>) -> Seq<Seq<char>> {
    add_missing(
        match active {
            Some(t) => seq![t],
            None => seq![],
        },
        default_themes(),
    )
}

/// Icon folders searched, in order: the user's (when `HOME` is set), then
/// the system's.
pub open spec fn bases_spec(home: Option<Seq<char>>) -> Seq<Seq<char>> {
    match home {
        Some(h) => seq![
            paths::path_push(h, ".local/share/icons"@),
            paths::path_push(h, ".icons"@),
            "/usr/share/icons"@,
            "/usr/local/share/icons"@,
        ],
        None => seq!["/usr/share/icons"@, "/usr/local/share/icons"@],
    }
}

/// `<folder>/<icon>.<ext>` for each extension, in order.
pub open spec fn file_cands(folder: Seq<char>, icon: Seq<char>) -> Seq<Seq<char>> {
    icon_extensions().map_values(|e: Seq<char>| paths::path_push(folder, icon + seq!['.'] + e))
}

/// The files looked for in one theme folder: each size folder in order.
pub open spec fn subdir_cands(theme_dir: Seq<char>, icon: Seq<char>) -> Seq<Seq<char>> {
    icon_subdirs().map_values(
        |d: Seq<char>| file_cands(paths::path_push(theme_dir, d), icon),
    ).flatten()
}

/// The files looked for in one theme: each icon folder in order.
pub open spec fn base_cands(bases: Seq<Seq<char>>, theme: Seq<char>, icon: Seq<char>) -> Seq<
    Seq<char>,
> {
    bases.map_values(|b: Seq<char>| subdir_cands(paths::path_push(b, theme), icon)).flatten()
}

/// Every path at which the icon named `icon` is looked for, in order: the
/// name itself when it is an absolute path, then each theme, icon folder,
/// size folder and extension, then `/usr/share/pixmaps`. The icon is the
/// first of them that exists.
pub open spec fn icon_candidates(icon: Seq<char>, active: Option<Seq<char>>, home: Option<Seq<char>>) -> Seq<
    Seq<char>,
> {
    let own = if icon.len() > 0 && icon[0] == '/' {
        seq![icon]
    } else {
        seq![]
    };
    let bases = bases_spec(home);
    own + themes_spec(active).map_values(|t: Seq<char>| base_cands(bases, t, icon)).flatten()
        + file_cands("/usr/share/pixmaps"@, icon)
}

fn push_file_cands(out: &mut Vec<Vec<char>>, folder: &Vec<char>, icon: &Vec<char>)
    ensures
        text::views(final(out)@) == text::views(old(out)@) + file_cands(folder@, icon@),
{
    let exts: Vec<&str> = vec!["png", "svg", "jpg", "jpeg", "xpm"];
    assert(exts@.map_values(|e: &str| e@) =~= icon_extensions());
    let ghost start = text::views(out@);
    let mut i: usize = 0;
    while i < exts.len()
        invariant
            i <= exts@.len(),
            exts@.map_values(|e: &str| e@) == icon_extensions(),
            text::views(out@) == start + file_cands(folder@, icon@).take(i as int),
        decreases exts.len() - i,
    {
        let mut name: Vec<char> = text::sub_vec(icon, 0, icon.len());
        assert(icon@.subrange(0, icon@.len() as int) == icon@);
        name.push('.');
        push_str(&mut name, exts[i]);
        assert(exts@.map_values(|e: &str| e@)[i as int] == exts@[i as int]@);
        let p = paths::path_push_exec(folder, &name);
        assert(name@ =~= icon@ + seq!['.'] + icon_extensions()[i as int]);
        assert(file_cands(folder@, icon@)[i as int] == p@);
        assert(file_cands(folder@, icon@).len() == 5);
        let ghost before = text::views(out@);
        out.push(p);
        assert(text::views(out@) =~= before.push(p@));
        assert(file_cands(folder@, icon@).take(i + 1) =~= file_cands(folder@, icon@).take(
            i as int,
        ).push(p@));
        i = i + 1;
    }
    assert(file_cands(folder@, icon@).take(5) =~= file_cands(folder@, icon@));
}

fn push_subdir_cands(out: &mut Vec<Vec<char>>, theme_dir: &Vec<char>, icon: &Vec<char>)
    ensures
        text::views(final(out)@) == text::views(old(out)@) + subdir_cands(theme_dir@, icon@),
{
    let subs: Vec<&str> = vec![
        "48x48/apps",
        "scalable/apps",
        "32x32/apps",
        "64x64/apps",
        "128x128/apps",
        "256x256/apps",
        "512x512/apps",
        "apps",
        "apps/48",
        "apps/scalable",
    ];
    assert(subs@.map_values(|e: &str| e@) =~= icon_subdirs());
    let ghost f = |d: Seq<char>| file_cands(paths::path_push(theme_dir@, d), icon@);
    let ghost start = text::views(out@);
    let mut i: usize = 0;
    while i < subs.len()
        invariant
            i <= subs@.len(),
            subs@.map_values(|e: &str| e@) == icon_subdirs(),
            f == (|d: Seq<char>| file_cands(paths::path_push(theme_dir@, d), icon@)),
            text::views(out@) == start + icon_subdirs().take(i as int).map_values(f).flatten(),
        decreases subs.len() - i,
    {
        let d = chars_of(subs[i]);
        assert(subs@.map_values(|e: &str| e@)[i as int] == subs@[i as int]@);
        let folder = paths::path_push_exec(theme_dir, &d);
        let ghost before = text::views(out@);
        push_file_cands(out, &folder, icon);
        proof {
            let s = icon_subdirs().take(i as int).map_values(f);
            assert(icon_subdirs().take(i + 1).map_values(f) =~= s.push(f(icon_subdirs()[i as int])));
            s.lemma_flatten_push(f(icon_subdirs()[i as int]));
        }
        i = i + 1;
    }
    assert(icon_subdirs().take(10) =~= icon_subdirs());
}

fn push_base_cands(out: &mut Vec<Vec<char>>, bases: &Vec<Vec<char>>, theme: &Vec<char>, icon: &Vec<char>)
    ensures
        text::views(final(out)@) == text::views(old(out)@) + base_cands(
            text::views(bases@),
            theme@,
            icon@,
        ),
{
    let ghost bv = text::views(bases@);
    let ghost f = |b: Seq<char>| subdir_cands(paths::path_push(b, theme@), icon@);
    let ghost start = text::views(out@);
    let mut i: usize = 0;
    while i < bases.len()
        invariant
            i <= bases@.len(),
            bv == text::views(bases@),
            f == (|b: Seq<char>| subdir_cands(paths::path_push(b, theme@), icon@)),
            text::views(out@) == start + bv.take(i as int).map_values(f).flatten(),
        decreases bases.len() - i,
    {
        let theme_dir = paths::path_push_exec(&bases[i], theme);
        push_subdir_cands(out, &theme_dir, icon);
        proof {
            let s = bv.take(i as int).map_values(f);
            assert(bv.take(i + 1).map_values(f) =~= s.push(f(bv[i as int])));
            s.lemma_flatten_push(f(bv[i as int]));
        }
        i = i + 1;
    }
    assert(bv.take(bv.len() as int) == bv);
}

fn theme_list(active: Option<&str>) -> (r: Vec<Vec<char>>)
    ensures
        text::views(r@) == themes_spec(text::opt_str(active)),
{
    let mut out: Vec<Vec<char>> = Vec::new();
    match active {
        Some(t) => {
            out.push(chars_of(t));
        },
        None => {},
    }
    let ghost start = text::views(out@);
    assert(start =~= match text::opt_str(active) {
        Some(t) => seq![t],
        None => seq![],
    });
    let defaults: Vec<&str> = vec!["hicolor", "Papirus", "Yaru", "breeze", "Adwaita", "gnome"];
    assert(defaults@.map_values(|e: &str| e@) =~= default_themes());
    let mut i: usize = 0;
    while i < defaults.len()
        invariant
            i <= defaults@.len(),
            defaults@.map_values(|e: &str| e@) == default_themes(),
            text::views(out@) == add_missing(start, default_themes().take(i as int)),
        decreases defaults.len() - i,
    {
        let d = chars_of(defaults[i]);
        assert(defaults@.map_values(|e: &str| e@)[i as int] == defaults@[i as int]@);
        let ghost t = default_themes().take(i + 1);
        assert(t.drop_last() == default_themes().take(i as int));
        assert(t.last() == d@);
        let mut found = false;
        let mut j: usize = 0;
        while j < out.len()
            invariant
                j <= out@.len(),
                found == text::views(out@).take(j as int).contains(d@),
            decreases out.len() - j,
        {
            if text::chars_equal(&out[j], &d) {
                assert(text::views(out@).take(j + 1)[j as int] == d@);
                found = true;
            } else {
                assert(text::views(out@).take(j + 1) =~= text::views(out@).take(j as int).push(
                    out@[j as int]@,
                ));
            }
            j = j + 1;
        }
        assert(text::views(out@).take(out@.len() as int) == text::views(out@));
        if !found {
            let ghost before = text::views(out@);
            out.push(d);
            assert(text::views(out@) =~= before.push(d@));
        }
        i = i + 1;
    }
    assert(default_themes().take(6) =~= default_themes());
    out
}

fn base_list(home: Option<&str>) -> (r: Vec<Vec<char>>)
    ensures
        text::views(r@) == bases_spec(text::opt_str(home)),
{
    let mut out: Vec<Vec<char>> = Vec::new();
    match home {
        Some(h) => {
            let hv = chars_of(h);
            out.push(paths::path_push_exec(&hv, &chars_of(".local/share/icons")));
            out.push(paths::path_push_exec(&hv, &chars_of(".icons")));
        },
        None => {},
    }
    out.push(chars_of("/usr/share/icons"));
    out.push(chars_of("/usr/local/share/icons"));
    assert(text::views(out@) =~= bases_spec(text::opt_str(home)));
    out
}

/// Every path at which the icon named `icon` is looked for, in order, with
/// the active theme `active` and the home directory `home` (`None` when
/// `HOME` is unset).
pub fn icon_search_paths(icon: &str, active: Option<&str>, home: Option<&str>) -> (r: Vec<String>)
    ensures
        r@.map_values(|s: String| s@) == icon_candidates(icon@, text::opt_str(active), text::opt_str(home)),
{
    let iv = chars_of(icon);
    let mut out: Vec<Vec<char>> = Vec::new();
    if iv.len() > 0 && iv[0] == '/' {
        out.push(chars_of(icon));
    }
    let ghost own = text::views(out@);
    let themes = theme_list(active);
    let bases = base_list(home);
    let ghost bv = text::views(bases@);
    let ghost tv = text::views(themes@);
    let ghost f = |t: Seq<char>| base_cands(bv, t, iv@);
    let mut i: usize = 0;
    while i < themes.len()
        invariant
            i <= themes@.len(),
            tv == text::views(themes@),
            bv == text::views(bases@),
            f == (|t: Seq<char>| base_cands(bv, t, iv@)),
            text::views(out@) == own + tv.take(i as int).map_values(f).flatten(),
        decreases themes.len() - i,
    {
        push_base_cands(&mut out, &bases, &themes[i], &iv);
        proof {
            let s = tv.take(i as int).map_values(f);
            assert(tv.take(i + 1).map_values(f) =~= s.push(f(tv[i as int])));
            s.lemma_flatten_push(f(tv[i as int]));
        }
        i = i + 1;
    }
    assert(tv.take(tv.len() as int) == tv);
    let pix = chars_of("/usr/share/pixmaps");
    push_file_cands(&mut out, &pix, &iv);
    let mut r: Vec<String> = Vec::new();
    let mut k: usize = 0;
    while k < out.len()
        invariant
            k <= out@.len(),
            r@.map_values(|s: String| s@) == text::views(out@).take(k as int),
        decreases out.len() - k,
    {
        let ghost before = r@.map_values(|s: String| s@);
        let sk = string_of(&out[k]);
        assert(text::views(out@)[k as int] == out@[k as int]@);
        assert(sk@ == text::views(out@)[k as int]);
        r.push(sk);
        assert(r@.map_values(|s: String| s@) =~= before.push(sk@));
        assert(text::views(out@).take(k + 1) =~= text::views(out@).take(k as int).push(
            text::views(out@)[k as int],
        ));
        k = k + 1;
    }
    assert(text::views(out@).take(out@.len() as int) == text::views(out@));
    proof {
        let cands = icon_candidates(icon@, text::opt_str(active), text::opt_str(home));
        assert(own =~= (if icon@.len() > 0 && icon@[0] == '/' {
            seq![icon@]
        } else {
            seq![]
        }));
        assert(text::views(out@) =~= cands);
    }
    r
}


// ---------------------------------------------------------------------------
// The resolver
// ---------------------------------------------------------------------------

/// Index of the first entry with key `k` (the length when there is none).
pub open spec fn key_pos<V>(m: Seq<(Seq<char>, V)>, k: Seq<char>) -> nat
    decreases m.len(),
{
    if m.len() == 0 {
        0
    } else if m[0].0 == k {
        0
    } else {
        1 + key_pos(m.drop_first(), k)
    }
}

/// The value stored under `k` in a list of entries used as a map.
pub open spec fn assoc<V>(m: Seq<(Seq<char>, V)>, k: Seq<char>) -> Option<V> {
    let i = key_pos(m, k);
    if i < m.len() {
        Some(m[i as int].1)
    } else {
        None
    }
}

/// Stores `v` under `k`: the entry of `k` is replaced, or a new entry is
/// appended.
pub open spec fn assoc_put<V>(m: Seq<(Seq<char>, V)>, k: Seq<char>, v: V) -> Seq<(Seq<char>, V)> {
    let i = key_pos(m, k);
    if i < m.len() {
        m.update(i as int, (k, v))
    } else {
        m.push((k, v))
    }
}

pub open spec fn pair_views(v: Seq<(String, String)>) -> Seq<(Seq<char>, Seq<char>)> {
    v.map_values(|p: (String, String)| (p.0@, p.1@))
}

pub open spec fn cache_views(v: Seq<(String, Option<String>)>) -> Seq<(Seq<char>, Option<Seq<char>>)> {
    v.map_values(|p: (String, Option<String>)| (p.0@, text::opt_chars(p.1)))
}

/// The program-to-icon map built from the texts of desktop files read in
/// order: each file naming both a program and an icon stores the icon under
/// the program, later files replacing earlier ones.
pub open spec fn desktop_map(files: Seq<Seq<char>>) -> Seq<(Seq<char>, Seq<char>)>
    decreases files.len(),
{
    if files.len() == 0 {
        seq![]
    } else {
        let m = desktop_map(files.drop_last());
        match desktop_pair(files.last()) {
            Some((e, i)) => assoc_put(m, e, i),
            None => m,
        }
    }
}

/// The icon of the first entry whose program name is longer than two bytes
/// and occurs in the process name or in the executable's name.
pub open spec fn substring_icon(m: Seq<(Seq<char>, Seq<char>)>, name: Seq<char>, exe: Option<Seq<char>>) -> Option<
    Seq<char>,
>
    decreases m.len(),
{
    if m.len() == 0 {
        None
    } else if text::utf8_len(m[0].0) > 2 && (text::has_sub(name, m[0].0) || (exe matches Some(x)
        && text::has_sub(x, m[0].0))) {
        Some(m[0].1)
    } else {
        substring_icon(m.drop_first(), name, exe)
    }
}

/// The lowercase file name of a non-empty executable path.
pub open spec fn exe_name(exe_path: Seq<char>) -> Option<Seq<char>> {
    if exe_path.len() == 0 {
        None
    } else {
        match paths::file_name(exe_path) {
            Some(n) => Some(text::lower_text(n)),
            None => None,
        }
    }
}

/// The icon name looked up for a process (`name` lowercased, `exe` the
/// lowercase executable name): the icon mapped to the executable name, else
/// to the process name, else to a program name occurring in either; failing
/// all, the executable name, else the process name.
pub open spec fn icon_name_for(m: Seq<(Seq<char>, Seq<char>)>, name: Seq<char>, exe: Option<Seq<char>>) -> Seq<
    char,
> {
    let by_exe = match exe {
        Some(e) => assoc(m, e),
        None => None,
    };
    if by_exe is Some {
        by_exe.unwrap()
    } else if assoc(m, name) is Some {
        assoc(m, name).unwrap()
    } else if substring_icon(m, name, exe) is Some {
        substring_icon(m, name, exe).unwrap()
    } else {
        match exe {
            Some(e) => e,
            None => name,
        }
    }
}

proof fn lemma_key_pos<V>(m: Seq<(Seq<char>, V)>, k: Seq<char>, i: int)
    requires
        0 <= i <= m.len(),
        forall|j: int| 0 <= j < i ==> (#[trigger] m[j]).0 != k,
        i == m.len() || m[i].0 == k,
    ensures
        key_pos(m, k) == i,
    decreases i,
{
    if i > 0 {
        assert forall|j: int| 0 <= j < i - 1 implies (#[trigger] m.drop_first()[j]).0 != k by {
            assert(m.drop_first()[j] == m[j + 1]);
        }
        if i < m.len() {
            assert(m.drop_first()[i - 1] == m[i]);
        }
        lemma_key_pos(m.drop_first(), k, i - 1);
    }
}

proof fn lemma_key_pos_props<V>(m: Seq<(Seq<char>, V)>, k: Seq<char>)
    ensures
        key_pos(m, k) <= m.len(),
        forall|j: int| 0 <= j < key_pos(m, k) ==> (#[trigger] m[j]).0 != k,
        key_pos(m, k) < m.len() ==> m[key_pos(m, k) as int].0 == k,
    decreases m.len(),
{
    if m.len() > 0 && m[0].0 != k {
        lemma_key_pos_props(m.drop_first(), k);
        assert forall|j: int| 0 <= j < key_pos(m, k) implies (#[trigger] m[j]).0 != k by {
            if j > 0 {
                assert(m[j] == m.drop_first()[j - 1]);
            }
        }
        if key_pos(m, k) < m.len() {
            assert(m[key_pos(m, k) as int] == m.drop_first()[key_pos(m, k) - 1]);
        }
    }
}

/// What is stored under a key is what a later lookup of that key gives
/// back, and the other keys keep their values. For the resolver: once a
/// lookup of a process name has finished, looking up that name again (in
/// any letter case) is answered from memory with the same result, and for
/// the program map, a later desktop file naming the same program wins.
pub proof fn lemma_remembered<V>(m: Seq<(Seq<char>, V)>, k: Seq<char>, v: V, other: Seq<char>)
    ensures
        assoc(assoc_put(m, k, v), k) == Some(v),
        other != k ==> assoc(assoc_put(m, k, v), other) == assoc(m, other),
{
    lemma_key_pos_props(m, k);
    lemma_key_pos_props(m, other);
    let i = key_pos(m, k) as int;
    let n = assoc_put(m, k, v);
    if i < m.len() {
        assert forall|j: int| 0 <= j < i implies (#[trigger] n[j]).0 != k by {
            assert(n[j] == m[j]);
        }
        lemma_key_pos(n, k, i);
        if other != k {
            let o = key_pos(m, other) as int;
            assert forall|j: int| 0 <= j < o implies (#[trigger] n[j]).0 != other by {
                if j != i {
                    assert(n[j] == m[j]);
                }
            }
            if o < m.len() {
                assert(o != i);
                assert(n[o] == m[o]);
            }
            lemma_key_pos(n, other, o);
        }
    } else {
        assert forall|j: int| 0 <= j < m.len() implies (#[trigger] n[j]).0 != k by {
            assert(n[j] == m[j]);
        }
        lemma_key_pos(n, k, m.len() as int);
        if other != k {
            let o = key_pos(m, other) as int;
            assert forall|j: int| 0 <= j < o implies (#[trigger] n[j]).0 != other by {
                if j < m.len() {
                    assert(n[j] == m[j]);
                }
            }
            if o < m.len() {
                assert(n[o] == m[o]);
                lemma_key_pos(n, other, o);
            } else {
                assert(n[m.len() as int].0 == k);
                lemma_key_pos(n, other, n.len() as int);
            }
        }
    }
}

/// The entries after storing each of `kvs` in turn.
pub open spec fn put_all<V>(m: Seq<(Seq<char>, V)>, kvs: Seq<(Seq<char>, V)>) -> Seq<(Seq<char>, V)>
    decreases kvs.len(),
{
    if kvs.len() == 0 {
        m
    } else {
        assoc_put(put_all(m, kvs.drop_last()), kvs.last().0, kvs.last().1)
    }
}

/// Every store in `later` is of a key that had no entry when it was made,
/// as for a lookup that is finished only after `get_icon_path` asked for a
/// search.
pub open spec fn stores_follow_search<V>(m: Seq<(Seq<char>, V)>, later: Seq<(Seq<char>, V)>) -> bool {
    forall|j: int| 0 <= j < later.len() ==> assoc(put_all(m, later.take(j)), (#[trigger] later[j]).0) is None
}

proof fn lemma_answer_kept<V>(m: Seq<(Seq<char>, V)>, k: Seq<char>, v: V, later: Seq<(Seq<char>, V)>)
    requires
        assoc(m, k) == Some(v),
        stores_follow_search(m, later),
    ensures
        assoc(put_all(m, later), k) == Some(v),
    decreases later.len(),
{
    if later.len() > 0 {
        let front = later.drop_last();
        let l = later.len() - 1;
        assert forall|j: int| 0 <= j < front.len() implies assoc(
            put_all(m, front.take(j)),
            (#[trigger] front[j]).0,
        ) is None by {
            assert(front.take(j) == later.take(j));
            assert(front[j] == later[j]);
        }
        lemma_answer_kept(m, k, v, front);
        assert(later.take(l) == front);
        assert(assoc(put_all(m, front), later[l].0) is None);
        assert(later.last() == later[l]);
        lemma_remembered(put_all(m, front), later[l].0, later[l].1, k);
    }
}

/// A finished lookup is remembered. Let `finished` be the resolver right
/// after `finish_lookup(n1, ..)` returned the answer `x` (its contract gives
/// `finished.known_answer(n1) == Some(x)`), and `later` the resolver after
/// any further calls: `parse_desktop_file` and `get_icon_path` keep
/// `resolved()`, and each further `finish_lookup` stores its answer (the
/// stores `stores`) for a name that `get_icon_path` had just answered with
/// `Search`, that is, one with no stored answer. Then for every name `n2`
/// with the same lowercase as `n1`, the stored answer is still `x`, so
/// `get_icon_path(n2, ..)` returns `Known(x)`, whatever the executable,
/// the desktop entries or the files on disk.
pub proof fn lemma_lookup_remembered(
    finished: IconResolver,
    later: IconResolver,
    n1: Seq<char>,
    x: Option<Seq<char>>,
    stores: Seq<(Seq<char>, Option<Seq<char>>)>,
    n2: Seq<char>,
)
    requires
        finished.known_answer(n1) == Some(x),
        later.resolved() == put_all(finished.resolved(), stores),
        stores_follow_search(finished.resolved(), stores),
        text::lower_text(n2) == text::lower_text(n1),
    ensures
        later.known_answer(n2) == Some(x),
{
    lemma_answer_kept(finished.resolved(), text::lower_text(n1), x, stores);
}

/// The index of the first candidate path that exists, given for each
/// candidate whether it exists; `None` when none does. This is the `found`
/// that `IconResolver::finish_lookup` takes.
pub fn first_existing(exists: &Vec<bool>) -> (r: Option<usize>)
    ensures
        match r {
            Some(i) => i < exists@.len() && exists@[i as int] && forall|j: int|
                0 <= j < i ==> !#[trigger] exists@[j],
            None => forall|j: int| 0 <= j < exists@.len() ==> !#[trigger] exists@[j],
        },
{
    let mut i: usize = 0;
    while i < exists.len()
        invariant
            i <= exists@.len(),
            forall|j: int| 0 <= j < i ==> !#[trigger] exists@[j],
        decreases exists.len() - i,
    {
        if exists[i] {
            return Some(i);
        }
        i = i + 1;
    }
    None
}

/// Maps process names to icon files, remembering what it found.
pub struct IconResolver {
    binary_to_icon: Vec<(String, String)>,
    resolved_paths: Vec<(String, Option<String>)>,
    active_theme: Option<String>,
}

/// What the resolver needs to answer a lookup.
pub enum IconLookup {
    /// The process name was looked up before; this is the answer.
    Known(Option<String>),
    /// The icon is the first of these paths that exists; the caller tests
    /// them in order and reports with `finish_lookup`.
    Search(Vec<String>),
}

impl IconResolver {
    /// Program name to icon name, from the desktop files.
    pub closed spec fn icons(&self) -> Seq<(Seq<char>, Seq<char>)> {
        pair_views(self.binary_to_icon@)
    }

    /// Lowercase process name to the icon file found for it.
    pub closed spec fn resolved(&self) -> Seq<(Seq<char>, Option<Seq<char>>)> {
        cache_views(self.resolved_paths@)
    }

    /// The user's icon theme.
    pub closed spec fn theme(&self) -> Option<Seq<char>> {
        text::opt_chars(self.active_theme)
    }

    /// The remembered answer for process `name`, looked up by its lowercase.
    pub open spec fn known_answer(&self, name: Seq<char>) -> Option<Option<Seq<char>>> {
        assoc(self.resolved(), text::lower_text(name))
    }

    /// A resolver for the icon theme `active_theme` that maps the programs
    /// named by the desktop files with texts `desktop_files` (read in order).
    pub fn new(active_theme: Option<String>, desktop_files: &Vec<String>) -> (r: IconResolver)
        ensures
            r.icons() == desktop_map(desktop_files@.map_values(|s: String| s@)),
            r.resolved() == Seq::<(Seq<char>, Option<Seq<char>>)>::empty(),
            r.theme() == text::opt_chars(active_theme),
    {
        let mut r = IconResolver {
            binary_to_icon: Vec::new(),
            resolved_paths: Vec::new(),
            active_theme,
        };
        let ghost fs = desktop_files@.map_values(|s: String| s@);
        let mut i: usize = 0;
        while i < desktop_files.len()
            invariant
                i <= desktop_files@.len(),
                fs == desktop_files@.map_values(|s: String| s@),
                r.icons() == desktop_map(fs.take(i as int)),
                r.resolved() == Seq::<(Seq<char>, Option<Seq<char>>)>::empty(),
                r.theme() == text::opt_chars(active_theme),
            decreases desktop_files.len() - i,
        {
            let ghost t = fs.take(i + 1);
            assert(t.drop_last() == fs.take(i as int));
            assert(t.last() == desktop_files@[i as int]@);
            r.parse_desktop_file(desktop_files[i].as_str());
            i = i + 1;
        }
        assert(fs.take(fs.len() as int) == fs);
        r
    }

    /// Reads one desktop file: when it names a program and an icon, the icon
    /// is stored under the program.
    pub fn parse_desktop_file(&mut self, content: &str)
        ensures
            final(self).icons() == match desktop_pair(content@) {
                Some((e, i)) => assoc_put(old(self).icons(), e, i),
                None => old(self).icons(),
            },
            final(self).resolved() == old(self).resolved(),
            final(self).theme() == old(self).theme(),
    {
        match desktop_entry_pair(content) {
            Some((e, i)) => {
                put_icon(&mut self.binary_to_icon, e, i);
            },
            None => {},
        }
    }

    /// The icon theme in use.
    pub fn active_theme(&self) -> (r: Option<String>)
        ensures
            text::opt_chars(r) == self.theme(),
    {
        match &self.active_theme {
            Some(t) => Some(t.clone()),
            None => None,
        }
    }

    /// The program-to-icon entries read from the desktop files.
    pub fn desktop_entries(&self) -> (r: Vec<(String, String)>)
        ensures
            pair_views(r@) == self.icons(),
    {
        let mut out: Vec<(String, String)> = Vec::new();
        let mut i: usize = 0;
        while i < self.binary_to_icon.len()
            invariant
                i <= self.binary_to_icon@.len(),
                pair_views(out@) == pair_views(self.binary_to_icon@).take(i as int),
            decreases self.binary_to_icon.len() - i,
        {
            let e = &self.binary_to_icon[i];
            let a = e.0.clone();
            let b = e.1.clone();
            let ghost before = pair_views(out@);
            out.push((a, b));
            assert(pair_views(out@) =~= before.push((e.0@, e.1@)));
            assert(pair_views(self.binary_to_icon@)[i as int] == (e.0@, e.1@));
            assert(pair_views(out@) =~= pair_views(self.binary_to_icon@).take(i + 1));
            i = i + 1;
        }
        assert(pair_views(self.binary_to_icon@).take(i as int) == pair_views(self.binary_to_icon@));
        out
    }

    /// Starts resolving the icon of process `process_name` with executable
    /// `exe_path` (empty when unknown); `home` is the home directory. A name
    /// looked up before is answered from memory; otherwise the paths to test
    /// are returned.
    pub fn get_icon_path(&self, process_name: &str, exe_path: &str, home: Option<&str>) -> (r:
        IconLookup)
        ensures
            match self.known_answer(process_name@) {
                Some(c) => r matches IconLookup::Known(k) && text::opt_chars(k) == c,
                None => r matches IconLookup::Search(ps) && ps@.map_values(|s: String| s@)
                    == icon_candidates(
                    icon_name_for(
                        self.icons(),
                        text::lower_text(process_name@),
                        exe_name(exe_path@),
                    ),
                    self.theme(),
                    text::opt_str(home),
                ),
            },
    {
        let low = text::to_lower(process_name);
        let lv = chars_of(low.as_str());
        let k = cache_pos(&self.resolved_paths, &lv);
        if k < self.resolved_paths.len() {
            let e = &self.resolved_paths[k];
            assert(cache_views(self.resolved_paths@)[k as int] == (e.0@, text::opt_chars(e.1)));
            let known = match &e.1 {
                Some(p) => Some(p.clone()),
                None => None,
            };
            return IconLookup::Known(known);
        }
        let exe = exe_name_of(exe_path);
        let icon = self.icon_name(&lv, &exe);
        let theme = match &self.active_theme {
            Some(t) => Some(t.as_str()),
            None => None,
        };
        assert(text::opt_str(theme) == self.theme());
        IconLookup::Search(icon_search_paths(string_of(&icon).as_str(), theme, home))
    }

    /// Finishes a lookup of `process_name` that returned `candidates`:
    /// `found` is the index of the first of them that exists (`None` when
    /// none does). The answer, a `file://` URL or nothing, is remembered
    /// under the lowercase process name and returned.
    pub fn finish_lookup(&mut self, process_name: &str, candidates: &Vec<String>, found: Option<usize>) -> (r:
        Option<String>)
        requires
            found matches Some(i) ==> i < candidates@.len(),
        ensures
            text::opt_chars(r) == match found {
                Some(i) => Some("file://"@ + candidates@[i as int]@),
                None => None,
            },
            final(self).resolved() == assoc_put(
                old(self).resolved(),
                text::lower_text(process_name@),
                text::opt_chars(r),
            ),
            final(self).known_answer(process_name@) == Some(text::opt_chars(r)),
            final(self).icons() == old(self).icons(),
            final(self).theme() == old(self).theme(),
    {
        let result = match found {
            Some(i) => {
                let mut v: Vec<char> = Vec::new();
                push_str(&mut v, "file://");
                push_str(&mut v, candidates[i].as_str());
                Some(string_of(&v))
            },
            None => None,
        };
        let low = text::to_lower(process_name);
        let stored = match &result {
            Some(p) => Some(p.clone()),
            None => None,
        };
        put_cache(&mut self.resolved_paths, low, stored);
        proof {
            lemma_remembered(
                old(self).resolved(),
                text::lower_text(process_name@),
                text::opt_chars(result),
                text::lower_text(process_name@),
            );
        }
        result
    }

    fn icon_name(&self, name: &Vec<char>, exe: &Option<Vec<char>>) -> (r: Vec<char>)
        ensures
            r@ == icon_name_for(self.icons(), name@, match exe {
                Some(e) => Some(e@),
                None => None,
            }),
    {
        let ghost exe_v = match exe {
            Some(e) => Some(e@),
            None => None::<Seq<char>>,
        };
        match exe {
            Some(e) => {
                let k = icon_pos(&self.binary_to_icon, e);
                if k < self.binary_to_icon.len() {
                    return chars_of(self.binary_to_icon[k].1.as_str());
                }
            },
            None => {},
        }
        let k = icon_pos(&self.binary_to_icon, name);
        if k < self.binary_to_icon.len() {
            return chars_of(self.binary_to_icon[k].1.as_str());
        }
        match substring_pos(&self.binary_to_icon, name, exe) {
            Some(j) => chars_of(self.binary_to_icon[j].1.as_str()),
            None => match exe {
                Some(e) => text::sub_vec(e, 0, e.len()),
                None => text::sub_vec(name, 0, name.len()),
            },
        }
    }
}

fn exe_name_of(exe_path: &str) -> (r: Option<Vec<char>>)
    ensures
        match r {
            Some(e) => exe_name(exe_path@) == Some(e@),
            None => exe_name(exe_path@) is None,
        },
{
    if chars_of(exe_path).len() == 0 {
        return None;
    }
    match paths::file_name_of(exe_path) {
        Some(n) => {
            let l = text::to_lower(string_of(&n).as_str());
            Some(chars_of(l.as_str()))
        },
        None => None,
    }
}

fn icon_pos(m: &Vec<(String, String)>, k: &Vec<char>) -> (r: usize)
    ensures
        r == key_pos(pair_views(m@), k@),
        r <= m@.len(),
        r < m@.len() ==> pair_views(m@)[r as int].1 == m@[r as int].1@,
{
    let ghost mv = pair_views(m@);
    let mut i: usize = 0;
    while i < m.len()
        invariant
            i <= m@.len(),
            mv == pair_views(m@),
            key_pos(mv, k@) == i + key_pos(mv.skip(i as int), k@),
        decreases m.len() - i,
    {
        assert(mv.skip(i as int)[0] == mv[i as int]);
        if text::chars_equal(&chars_of(m[i].0.as_str()), k) {
            return i;
        }
        assert(mv.skip(i as int).drop_first() == mv.skip(i + 1));
        i = i + 1;
    }
    assert(mv.skip(i as int).len() == 0);
    i
}

fn cache_pos(m: &Vec<(String, Option<String>)>, k: &Vec<char>) -> (r: usize)
    ensures
        r == key_pos(cache_views(m@), k@),
        r <= m@.len(),
{
    let ghost mv = cache_views(m@);
    let mut i: usize = 0;
    while i < m.len()
        invariant
            i <= m@.len(),
            mv == cache_views(m@),
            key_pos(mv, k@) == i + key_pos(mv.skip(i as int), k@),
        decreases m.len() - i,
    {
        assert(mv.skip(i as int)[0] == mv[i as int]);
        if text::chars_equal(&chars_of(m[i].0.as_str()), k) {
            return i;
        }
        assert(mv.skip(i as int).drop_first() == mv.skip(i + 1));
        i = i + 1;
    }
    assert(mv.skip(i as int).len() == 0);
    i
}

fn put_icon(m: &mut Vec<(String, String)>, k: String, v: String)
    ensures
        pair_views(final(m)@) == assoc_put(pair_views(old(m)@), k@, v@),
{
    let kv = chars_of(k.as_str());
    let i = icon_pos(m, &kv);
    if i < m.len() {
        m.set(i, (k, v));
        assert(pair_views(m@) =~= pair_views(old(m)@).update(i as int, (kv@, v@)));
    } else {
        m.push((k, v));
        assert(pair_views(m@) =~= pair_views(old(m)@).push((kv@, v@)));
    }
}

fn put_cache(m: &mut Vec<(String, Option<String>)>, k: String, v: Option<String>)
    ensures
        cache_views(final(m)@) == assoc_put(cache_views(old(m)@), k@, text::opt_chars(v)),
{
    let kv = chars_of(k.as_str());
    let i = cache_pos(m, &kv);
    let ghost vv = text::opt_chars(v);
    if i < m.len() {
        m.set(i, (k, v));
        assert(cache_views(m@) =~= cache_views(old(m)@).update(i as int, (kv@, vv)));
    } else {
        m.push((k, v));
        assert(cache_views(m@) =~= cache_views(old(m)@).push((kv@, vv)));
    }
}

fn substring_pos(m: &Vec<(String, String)>, name: &Vec<char>, exe: &Option<Vec<char>>) -> (r: Option<usize>)
    ensures
        match r {
            Some(j) => j < m@.len() && substring_icon(pair_views(m@), name@, match exe {
                Some(e) => Some(e@),
                None => None,
            }) == Some(m@[j as int].1@),
            None => substring_icon(pair_views(m@), name@, match exe {
                Some(e) => Some(e@),
                None => None,
            }) is None,
        },
{
    let ghost mv = pair_views(m@);
    let ghost ev = match exe {
        Some(e) => Some(e@),
        None => None::<Seq<char>>,
    };
    let mut i: usize = 0;
    while i < m.len()
        invariant
            i <= m@.len(),
            mv == pair_views(m@),
            ev == match exe {
                Some(e) => Some(e@),
                None => None::<Seq<char>>,
            },
            substring_icon(mv, name@, ev) == substring_icon(mv.skip(i as int), name@, ev),
        decreases m.len() - i,
    {
        assert(mv.skip(i as int)[0] == mv[i as int]);
        let key = chars_of(m[i].0.as_str());
        let hit = text::contains(name, &key) || match exe {
            Some(e) => text::contains(e, &key),
            None => false,
        };
        if text::utf8_len_upto(m[i].0.as_str(), 2) > 2 && hit {
            return Some(i);
        }
        assert(mv.skip(i as int).drop_first() == mv.skip(i + 1));
        i = i + 1;
    }
    assert(mv.skip(i as int).len() == 0);
    None
}

} // verus!
