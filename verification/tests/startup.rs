use ae_taskmanager::startup::{
    autostart_content, list_startup_apps, parse_desktop_file, set_startup_plan, startup_step_error,
    DesktopFile, StartupStep,
};

fn file(name: &str, dir: &str, content: Option<&str>) -> DesktopFile {
    let stem = name.strip_suffix(".desktop").map(|s| s.to_string());
    DesktopFile {
        file_name: name.to_string(),
        path: format!("{}/{}", dir, name),
        file_stem: stem,
        content: content.map(|c| c.to_string()),
    }
}

fn enabled_when_read(content: &str) -> bool {
    parse_desktop_file(content, "/x.desktop", Some("x")).unwrap().enabled
}

#[test]
fn desktop_file_fields() {
    let app = parse_desktop_file(
        "[Desktop Entry]\n Name = Tracker \nExec=tracker daemon\nX-GNOME-Autostart-enabled=FALSE\n",
        "/etc/xdg/autostart/tracker.desktop",
        Some("tracker"),
    )
    .unwrap();
    assert_eq!(app.name, "tracker");
    assert_eq!(app.command, "tracker daemon");
    assert_eq!(app.path, "/etc/xdg/autostart/tracker.desktop");
    assert!(!app.enabled);
    let app = parse_desktop_file("Name=Foo\nHidden=true\n", "/a/foo.desktop", Some("foo")).unwrap();
    assert_eq!(app.name, "Foo");
    assert!(!app.enabled);
    let app = parse_desktop_file("Exec=bar\n", "/a/bar.desktop", Some("bar")).unwrap();
    assert_eq!(app.name, "bar");
    assert!(app.enabled);
    assert!(parse_desktop_file("Exec=bar\n", "/", None).is_none());
    let app = parse_desktop_file("Name=A\nName=B\nHidden=false\n", "/b.desktop", Some("b")).unwrap();
    assert_eq!(app.name, "B");
    assert!(app.enabled);
}

#[test]
fn user_entries_override_system_entries() {
    let user = vec![
        file("a.desktop", "/home/u/.config/autostart", Some("Name=A user\n")),
        file("broken.desktop", "/home/u/.config/autostart", None),
    ];
    let system = vec![
        file("a.desktop", "/etc/xdg/autostart", Some("Name=A system\n")),
        file("b.desktop", "/etc/xdg/autostart", Some("Name=B\nHidden=true\n")),
        file("broken.desktop", "/etc/xdg/autostart", Some("Name=Broken system\n")),
    ];
    let apps = list_startup_apps(&user, &system);
    let names: Vec<&str> = apps.iter().map(|a| a.name.as_str()).collect();
    assert_eq!(names, vec!["A user", "B", "Broken system"]);
    assert!(!apps[1].enabled);
    assert_eq!(apps[0].path, "/home/u/.config/autostart/a.desktop");
}

#[test]
fn switching_rewrites_keys() {
    let original = "[Desktop Entry]\nName=App\nExec=app\nX-GNOME-Autostart-enabled=true\n";
    assert_eq!(
        autostart_content(original, false),
        "[Desktop Entry]\nHidden=true\nName=App\nExec=app\nX-GNOME-Autostart-enabled=false"
    );
    let hidden = "[Desktop Entry]\nName=App\nHidden=true\n";
    assert_eq!(
        autostart_content(hidden, true),
        "[Desktop Entry]\nX-GNOME-Autostart-enabled=true\nName=App\nHidden=false"
    );
    assert_eq!(
        autostart_content("Name=NoHeader", false),
        "Name=NoHeader\nX-GNOME-Autostart-enabled=false\nHidden=true"
    );
    assert_eq!(autostart_content("", true), "X-GNOME-Autostart-enabled=true");
}

#[test]
fn switched_entry_reads_back() {
    let samples = [
        "[Desktop Entry]\nName=App\nExec=app\n",
        "[Desktop Entry]\r\nName=App\r\nHidden=TRUE\r\nX-GNOME-Autostart-enabled=False\r\n",
        "X-GNOME-Autostart-enabled=false\nHidden=true\n\n",
        "",
        "[Other]\nfoo=bar\n[Desktop Entry]\nName=Z\n",
    ];
    for s in samples {
        assert!(!enabled_when_read(&autostart_content(s, false)));
        assert!(enabled_when_read(&autostart_content(s, true)));
    }
    // An indented key is left as it is, and it is read (trimmed) afterwards.
    let indented = "[Desktop Entry]\n  Hidden=true\n";
    assert!(!enabled_when_read(&autostart_content(indented, true)));
}

#[test]
fn switching_plan_and_errors() {
    let plan = set_startup_plan("/etc/xdg/autostart/app.desktop", Ok("/home/u")).unwrap();
    assert_eq!(plan.autostart_dir, "/home/u/.config/autostart");
    assert_eq!(plan.target_path, "/home/u/.config/autostart/app.desktop");
    assert!(plan.copy_first);
    let plan = set_startup_plan("/home/u/.config/autostart/app.desktop", Ok("/home/u/")).unwrap();
    assert_eq!(plan.target_path, "/home/u/.config/autostart/app.desktop");
    assert!(!plan.copy_first);
    let plan = set_startup_plan("/home/u//.config/autostart/./app.desktop", Ok("/home/u")).unwrap();
    assert!(!plan.copy_first);
    assert_eq!(
        set_startup_plan("/", Ok("/home/u")).err(),
        Some("Invalid desktop file name".to_string())
    );
    assert_eq!(
        set_startup_plan("/a/b.desktop", Err("environment variable not found")).err(),
        Some("HOME environment variable missing: environment variable not found".to_string())
    );
    assert_eq!(
        startup_step_error(StartupStep::Copy, "denied"),
        "Failed to copy autostart file locally: denied"
    );
    assert_eq!(
        startup_step_error(StartupStep::Write, "full"),
        "Failed to write autostart configuration: full"
    );
}
