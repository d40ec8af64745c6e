use ae_taskmanager::backend::{DisplayServer, PlatformInfo, SessionEnv, WaylandDiagnostics, X11Diagnostics};
use ae_taskmanager::localization::{tr, translate_en, translate_tr, Language};
use ae_taskmanager::sidebar::{all_tabs, backend_label_for_lowercase, display_backend_label, Tab};
use ae_taskmanager::tabs::{AboutTab, PerfSubTab, PerformanceTab};

fn env(
    session: Option<&str>,
    wayland: Option<&str>,
    display: Option<&str>,
    runtime: Option<&str>,
    desktop: Option<&str>,
    xauth: Option<&str>,
) -> SessionEnv {
    SessionEnv {
        xdg_session_type: session.map(|s| s.to_string()),
        wayland_display: wayland.map(|s| s.to_string()),
        display: display.map(|s| s.to_string()),
        xdg_runtime_dir: runtime.map(|s| s.to_string()),
        xdg_current_desktop: desktop.map(|s| s.to_string()),
        xauthority: xauth.map(|s| s.to_string()),
    }
}

#[test]
fn language_detection() {
    assert_eq!(Language::detect(Some("tr_TR.UTF-8"), None, None), Language::Turkish);
    assert_eq!(Language::detect(Some("TR"), None, None), Language::Turkish);
    assert_eq!(Language::detect(Some("en_US.UTF-8"), Some("tr_TR"), None), Language::English);
    assert_eq!(Language::detect(None, Some("tr_TR.UTF-8"), None), Language::Turkish);
    assert_eq!(Language::detect(None, None, Some("tr")), Language::Turkish);
    assert_eq!(Language::detect(None, None, None), Language::English);
    assert_eq!(Language::detect(Some(""), Some("tr"), None), Language::English);
}

#[test]
fn translations() {
    assert_eq!(translate_en("tab_processes"), "☰  Processes");
    assert_eq!(translate_tr("tab_processes"), "☰  Süreçler");
    assert_eq!(translate_en("btn_terminate"), "Terminate");
    assert_eq!(translate_tr("btn_terminate"), "Görevi Sonlandır");
    assert_eq!(translate_en("lock_hdr_name"), "Process Name");
    assert_eq!(translate_tr("display_backend"), "Ekran Sunucusu:");
    assert_eq!(translate_en("no_such_key"), "no_such_key");
    assert_eq!(translate_tr("no_such_key"), "no_such_key");
    assert_eq!(tr("label_search", Language::English), "🔍 Search:");
    assert_eq!(tr("label_search", Language::Turkish), "🔍 Ara:");
}

#[test]
fn sidebar_tabs() {
    let tabs = all_tabs();
    assert_eq!(tabs.len(), 7);
    assert_eq!(tabs[0], Tab::Processes);
    assert_eq!(tabs[6], Tab::About);
    assert_eq!(Tab::Services.label(Language::English), "⚙  Services");
    assert_eq!(Tab::FileLocks.label(Language::Turkish), "🔒  Dosya Kilitleri");
    for t in &tabs {
        for lang in [Language::English, Language::Turkish] {
            assert_eq!(t.icon(lang), t.label(lang));
        }
    }
    assert_eq!(display_backend_label(Some("Wayland")), "Wayland 🌀");
    assert_eq!(display_backend_label(Some("x11")), "X11 🖥");
    assert_eq!(display_backend_label(None), "X11 🖥");
}

#[test]
fn display_server_detection() {
    let wl = env(Some("wayland"), Some("wayland-0"), None, Some("/run/user/1000"), Some("GNOME"), None);
    assert_eq!(DisplayServer::detect(&wl), DisplayServer::Wayland);
    let xw = env(Some("wayland"), Some("wayland-0"), Some(":0"), None, None, None);
    assert_eq!(DisplayServer::detect(&xw), DisplayServer::XWayland);
    let x = env(Some("x11"), None, Some(":0"), None, Some("KDE"), Some("/home/u/.Xauthority"));
    assert_eq!(DisplayServer::detect(&x), DisplayServer::X11);
    let none = env(None, None, None, None, None, None);
    assert_eq!(DisplayServer::detect(&none), DisplayServer::Unknown);
    assert_eq!(DisplayServer::XWayland.to_string(), "Wayland (with XWayland compatibility)");
    assert_eq!(DisplayServer::Unknown.to_string(), "Unknown Display Server");
    assert_eq!(
        WaylandDiagnostics::socket_candidate(&wl),
        Some("/run/user/1000/wayland-0".to_string())
    );
    let w = WaylandDiagnostics::collect(&wl, true);
    assert!(w.is_active);
    assert_eq!(w.socket_name, "wayland-0");
    assert_eq!(w.socket_path, Some("/run/user/1000/wayland-0".to_string()));
    assert_eq!(w.compositor, "Mutter (GNOME)");
    let w = WaylandDiagnostics::collect(&wl, false);
    assert_eq!(w.socket_path, None);
    let xd = X11Diagnostics::collect(&x);
    assert!(xd.is_active);
    assert_eq!(xd.display_name, ":0");
    assert_eq!(xd.xauthority, Some("/home/u/.Xauthority".to_string()));
    let info = PlatformInfo::collect(&x, false);
    assert_eq!(info.display_server, DisplayServer::X11);
    assert!(!info.wayland.is_active);
}

#[test]
fn about_and_performance_tabs() {
    let wl = env(Some("wayland"), Some("wayland-1"), None, Some("/run/user/7"), Some("sway"), None);
    let about = AboutTab::new(&wl, true);
    let rows = about.server_rows();
    let titles: Vec<&str> = rows.iter().map(|r| r.0.as_str()).collect();
    assert_eq!(
        titles,
        vec!["Active Server Type", "Compositor Name", "Wayland Socket", "Socket Connection Path"]
    );
    assert_eq!(rows[0].1, "Wayland (Native)");
    assert_eq!(rows[1].1, "Sway");
    assert_eq!(rows[3].1, "/run/user/7/wayland-1");
    let headless = AboutTab::new(&env(None, None, None, None, None, None), false);
    let rows = headless.server_rows();
    assert_eq!(rows.len(), 2);
    assert_eq!(rows[1].0, "Session Protocol");
    assert_eq!(rows[1].1, "Fallback Terminal / Headless");
    let mut perf = PerformanceTab::new();
    assert_eq!(perf.active_subtab, PerfSubTab::Cpu);
    perf.select(PerfSubTab::Gpu);
    assert_eq!(perf.active_subtab, PerfSubTab::Gpu);
}

#[test]
fn backend_label_from_lowercase_session() {
    assert_eq!(backend_label_for_lowercase("wayland"), "Wayland 🌀");
    assert_eq!(backend_label_for_lowercase("Wayland"), "X11 🖥");
    assert_eq!(display_backend_label(Some("Wayland")), "Wayland 🌀");
    assert_eq!(display_backend_label(Some("x11")), "X11 🖥");
    assert_eq!(display_backend_label(None), "X11 🖥");
}

#[test]
fn both_languages_translate_the_same_keys() {
    let keys = ["tab_processes", "tab_performance", "tab_services", "tab_startup", "tab_connections", "tab_file_locks", "tab_about", "display_backend", "btn_refresh", "btn_refresh_list", "label_search", "proc_tree_view", "proc_hdr_pid", "proc_hdr_name", "proc_hdr_cpu", "proc_hdr_ram", "proc_hdr_read", "proc_hdr_write", "proc_hdr_user", "proc_hdr_path", "proc_search_hint", "menu_terminate", "menu_force_terminate", "menu_open_location", "menu_search_web", "menu_properties", "modal_proc_details", "modal_ppid", "modal_status", "modal_virt", "modal_cmdline", "modal_owner", "btn_copy", "btn_close", "svc_search_hint", "svc_hdr_name", "svc_hdr_load", "svc_hdr_active", "svc_hdr_sub", "svc_hdr_desc", "svc_no_matches", "menu_svc_start", "menu_svc_stop", "menu_svc_restart", "menu_svc_enable", "menu_svc_disable", "start_title", "start_subtitle", "start_no_entries", "start_hdr_status", "start_hdr_app", "start_hdr_cmd", "start_hdr_loc", "start_hdr_details", "status_enabled", "status_disabled", "loc_user", "loc_system", "conn_title", "conn_subtitle", "conn_hdr_proto", "conn_hdr_local", "conn_hdr_remote", "conn_hdr_state", "conn_hdr_owner", "lock_title", "lock_subtitle", "lock_search_hint", "lock_btn_scan", "lock_no_matches", "lock_hdr_pid", "lock_hdr_name", "lock_hdr_fd", "lock_hdr_mode", "lock_hdr_path", "lock_hdr_action", "mode_read", "mode_write", "mode_readwrite", "btn_terminate", "unknown_key", ""];
    for k in keys {
        assert_eq!(translate_en(k) == k, translate_tr(k) == k, "{}", k);
    }
    assert_eq!(translate_en("unknown_key"), "unknown_key");
    assert_eq!(translate_tr("unknown_key"), "unknown_key");
}
