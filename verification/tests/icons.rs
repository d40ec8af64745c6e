use ae_taskmanager::command::CommandOutcome;
use ae_taskmanager::icons::{
    desktop_entry_pair, extract_bin_name, first_existing, icon_search_paths, theme_from_gsettings,
    theme_from_settings, IconLookup, IconResolver,
};

fn sample_desktop_files() -> Vec<String> {
    vec![
        "[Desktop Entry]\nName=Firefox\nExec=/usr/lib/firefox/firefox %u\nIcon=firefox\n".to_string(),
        "[Desktop Entry]\nName=Files\nExec=nautilus --new-window %U\nIcon=org.gnome.Nautilus\n"
            .to_string(),
        "[Desktop Entry]\nExec=\"/opt/Visual Studio Code/code\" --unity-launch %F\nIcon='vscode'\n"
            .to_string(),
    ]
}

fn resolve(resolver: &mut IconResolver, name: &str, exe: &str) -> Option<String> {
    match resolver.get_icon_path(name, exe, None) {
        IconLookup::Known(k) => k,
        IconLookup::Search(paths) => {
            let exists: Vec<bool> = paths.iter().map(|p| std::path::Path::new(p).exists()).collect();
            let found = first_existing(&exists);
            resolver.finish_lookup(name, &paths, found)
        }
    }
}

#[test]
fn test_icon_resolution() {
    let mut resolver = IconResolver::new(None, &sample_desktop_files());
    println!("Active theme: {:?}", resolver.active_theme());
    let entries = resolver.desktop_entries();
    println!("Mapped desktop entries: {}", entries.len());
    for (_, (k, v)) in entries.iter().enumerate().take(10) {
        println!("  Desktop map: {} -> {}", k, v);
    }
    let test_bins = &[
        "firefox", "chrome", "nautilus", "code", "cargo", "bash", "ae_taskmanager", "kitty",
        "alacritty", "steam", "spotify", "discord",
    ];
    for bin in test_bins {
        let path = resolve(&mut resolver, bin, "");
        println!("Process '{}' icon path: {:?}", bin, path);
    }
}

#[test]
fn extract_bin_name_cases() {
    assert_eq!(extract_bin_name("Exec=/usr/bin/Firefox %u"), Some("firefox".to_string()));
    assert_eq!(extract_bin_name("Exec=  gedit  "), Some("gedit".to_string()));
    assert_eq!(
        extract_bin_name("Exec=\"/opt/My App/Run Me\" --flag"),
        Some("run me".to_string())
    );
    assert_eq!(extract_bin_name("Exec="), None);
    assert_eq!(extract_bin_name("Exec=   "), None);
    assert_eq!(extract_bin_name("Exec=\"\" x"), None);
    assert_eq!(extract_bin_name("Exec=/"), None);
    assert_eq!(extract_bin_name("Exec=.."), None);
    assert_eq!(extract_bin_name("vlc --started-from-file"), Some("vlc".to_string()));
    assert_eq!(extract_bin_name("Exec=env/"), Some("env".to_string()));
}

#[test]
fn desktop_entry_pair_cases() {
    let files = sample_desktop_files();
    assert_eq!(
        desktop_entry_pair(&files[0]),
        Some(("firefox".to_string(), "firefox".to_string()))
    );
    assert_eq!(
        desktop_entry_pair(&files[2]),
        Some(("code".to_string(), "vscode".to_string()))
    );
    // Keys outside the [Desktop Entry] group are ignored.
    assert_eq!(
        desktop_entry_pair("[Desktop Action New]\nExec=app\nIcon=app\n"),
        None
    );
    // An empty icon value does not count.
    assert_eq!(desktop_entry_pair("[Desktop Entry]\nExec=app\nIcon=\"\"\n"), None);
    // Reading stops once both are known.
    assert_eq!(
        desktop_entry_pair("[Desktop Entry]\nExec=one\nIcon=first\nExec=two\n"),
        Some(("one".to_string(), "first".to_string()))
    );
    // A later Exec line without a program resets it.
    assert_eq!(desktop_entry_pair("[Desktop Entry]\nExec=one\nExec=\nIcon=x\n"), None);
}

#[test]
fn icon_theme_sources() {
    assert_eq!(
        theme_from_settings("[Settings]\n  gtk-icon-theme-name = \"Papirus-Dark\"\n"),
        Some("Papirus-Dark".to_string())
    );
    assert_eq!(theme_from_settings("[Settings]\ngtk-theme-name=Adwaita\n"), None);
    assert_eq!(theme_from_settings("gtk-icon-theme-name\ngtk-icon-theme-name=Yaru\n"), Some("Yaru".to_string()));
    assert_eq!(theme_from_settings("gtk-icon-theme-name=\n"), Some(String::new()));
    let ok = CommandOutcome::Ran { success: true, stdout: "'Yaru-dark'\n".to_string(), stderr: String::new() };
    assert_eq!(theme_from_gsettings(ok), Some("Yaru-dark".to_string()));
    let empty = CommandOutcome::Ran { success: true, stdout: "''\n".to_string(), stderr: String::new() };
    assert_eq!(theme_from_gsettings(empty), None);
    let failed = CommandOutcome::Ran { success: false, stdout: "'x'".to_string(), stderr: "no".to_string() };
    assert_eq!(theme_from_gsettings(failed), None);
    let missing = CommandOutcome::NotStarted { error: "not found".to_string() };
    assert_eq!(theme_from_gsettings(missing), None);
}

#[test]
fn icon_search_paths_order() {
    let paths = icon_search_paths("firefox", Some("Yaru"), Some("/home/u"));
    // 6 themes (Yaru is not repeated) x 4 folders x 10 sizes x 5 extensions, then pixmaps.
    assert_eq!(paths.len(), 6 * 4 * 10 * 5 + 5);
    assert_eq!(paths[0], "/home/u/.local/share/icons/Yaru/48x48/apps/firefox.png");
    assert_eq!(paths[1], "/home/u/.local/share/icons/Yaru/48x48/apps/firefox.svg");
    assert_eq!(paths[5], "/home/u/.local/share/icons/Yaru/scalable/apps/firefox.png");
    assert_eq!(paths[50], "/home/u/.icons/Yaru/48x48/apps/firefox.png");
    assert_eq!(paths[200], "/home/u/.local/share/icons/hicolor/48x48/apps/firefox.png");
    assert_eq!(paths[paths.len() - 5], "/usr/share/pixmaps/firefox.png");
    assert_eq!(paths[paths.len() - 1], "/usr/share/pixmaps/firefox.xpm");
    let abs = icon_search_paths("/opt/app/icon.png", None, None);
    assert_eq!(abs[0], "/opt/app/icon.png");
    assert_eq!(abs.len(), 1 + 6 * 2 * 10 * 5 + 5);
    assert_eq!(abs[1], "/opt/app/icon.png.png");
}

#[test]
fn resolver_maps_and_remembers() {
    let resolver = IconResolver::new(Some("Papirus".to_string()), &sample_desktop_files());
    assert_eq!(resolver.active_theme(), Some("Papirus".to_string()));
    assert_eq!(
        resolver.desktop_entries(),
        vec![
            ("firefox".to_string(), "firefox".to_string()),
            ("nautilus".to_string(), "org.gnome.Nautilus".to_string()),
            ("code".to_string(), "vscode".to_string()),
        ]
    );
    let mut resolver = resolver;
    // The executable's name is looked up first.
    match resolver.get_icon_path("Web Content", "/usr/lib/firefox/firefox", None) {
        IconLookup::Search(paths) => {
            assert_eq!(paths[0], "/usr/share/icons/Papirus/48x48/apps/firefox.png");
        }
        IconLookup::Known(_) => panic!("nothing was looked up yet"),
    }
    // A program name that occurs in the process name is used next.
    match resolver.get_icon_path("code-insiders", "", None) {
        IconLookup::Search(paths) => {
            assert_eq!(paths[0], "/usr/share/icons/Papirus/48x48/apps/vscode.png");
        }
        IconLookup::Known(_) => panic!("nothing was looked up yet"),
    }
    // Without a match the process name itself is the icon name.
    let unknown = match resolver.get_icon_path("ZSH", "", None) {
        IconLookup::Search(paths) => {
            assert_eq!(paths[0], "/usr/share/icons/Papirus/48x48/apps/zsh.png");
            paths
        }
        IconLookup::Known(_) => panic!("nothing was looked up yet"),
    };
    let answer = resolver.finish_lookup("ZSH", &unknown, Some(3));
    assert_eq!(answer, Some(format!("file://{}", unknown[3])));
    match resolver.get_icon_path("zsh", "", None) {
        IconLookup::Known(k) => assert_eq!(k, answer),
        IconLookup::Search(_) => panic!("the answer is remembered"),
    }
    let none = resolver.finish_lookup("ghost", &unknown, None);
    assert_eq!(none, None);
    match resolver.get_icon_path("GHOST", "/x", None) {
        IconLookup::Known(k) => assert_eq!(k, None),
        IconLookup::Search(_) => panic!("the answer is remembered"),
    }
}

#[test]
fn later_desktop_file_wins() {
    let mut resolver = IconResolver::new(None, &Vec::new());
    resolver.parse_desktop_file("[Desktop Entry]\nExec=tool\nIcon=old\n");
    resolver.parse_desktop_file("[Desktop Entry]\nExec=tool --x\nIcon=new\n");
    assert_eq!(resolver.desktop_entries(), vec![("tool".to_string(), "new".to_string())]);
}

#[test]
fn first_existing_candidate() {
    assert_eq!(first_existing(&vec![false, true, true]), Some(1));
    assert_eq!(first_existing(&vec![true]), Some(0));
    assert_eq!(first_existing(&vec![false, false]), None);
    assert_eq!(first_existing(&vec![]), None);
}

#[test]
fn remembered_answer_survives_other_lookups() {
    let mut resolver = IconResolver::new(None, &sample_desktop_files());
    let paths = match resolver.get_icon_path("Firefox", "", Some("/home/u")) {
        IconLookup::Search(p) => p,
        IconLookup::Known(_) => panic!("first lookup must search"),
    };
    let first = resolver.finish_lookup("Firefox", &paths, Some(0));
    assert_eq!(first, Some(format!("file://{}", paths[0])));
    for other in ["bash", "nautilus", "code"] {
        if let IconLookup::Search(p) = resolver.get_icon_path(other, "", None) {
            resolver.finish_lookup(other, &p, None);
        }
    }
    resolver.parse_desktop_file("[Desktop Entry]\nExec=firefox\nIcon=other-icon\n");
    match resolver.get_icon_path("FIREFOX", "/usr/bin/anything", None) {
        IconLookup::Known(k) => assert_eq!(k, first),
        IconLookup::Search(_) => panic!("a finished lookup must be remembered"),
    }
}
