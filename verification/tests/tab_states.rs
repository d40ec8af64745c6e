use ae_taskmanager::filelock::FileLockInfo;
use ae_taskmanager::localization::Language;
use ae_taskmanager::netconn::NetworkConnection;
use ae_taskmanager::startup::StartupApp;
use ae_taskmanager::systemd::ServiceInfo;
use ae_taskmanager::tabs::{owner_label, ConnectionsTab, FileLocksTab, ServicesTab, StartupTab};

fn conn(proto: &str, local: &str, state: &str, pid: Option<u32>, name: &str) -> NetworkConnection {
    NetworkConnection {
        protocol: proto.to_string(),
        local_address: local.to_string(),
        remote_address: "0.0.0.0:0".to_string(),
        state: state.to_string(),
        pid,
        process_name: name.to_string(),
    }
}

fn service(name: &str, desc: &str) -> ServiceInfo {
    ServiceInfo {
        name: name.to_string(),
        load_state: "loaded".to_string(),
        active_state: "active".to_string(),
        sub_state: "running".to_string(),
        description: desc.to_string(),
    }
}

#[test]
fn connections_tab() {
    let mut tab = ConnectionsTab::new();
    assert!(tab.needs_reload(0));
    tab.loaded(
        vec![
            conn("TCP", "127.0.0.1:631", "LISTEN", Some(812), "cupsd"),
            conn("UDP", "0.0.0.0:5353", "ACTIVE", None, "Unknown"),
            conn("TCP", "10.0.0.2:40000", "ESTABLISHED", Some(4031), "Firefox"),
        ],
        1_000,
    );
    assert!(!tab.needs_reload(5_000_001_000));
    assert!(tab.needs_reload(5_000_001_001));
    assert_eq!(tab.filtered().len(), 3);
    tab.search_query = "FIRE".to_string();
    assert_eq!(tab.filtered()[0].pid, Some(4031));
    tab.search_query = "403".to_string();
    assert_eq!(tab.filtered().len(), 1);
    tab.search_query = "udp".to_string();
    assert_eq!(tab.filtered()[0].local_address, "0.0.0.0:5353");
    tab.search_query = "listen".to_string();
    assert_eq!(tab.filtered().len(), 1);
    tab.refresh_clicked();
    assert!(tab.needs_reload(1_000));
    assert_eq!(owner_label(&tab.cached_connections[0], Language::English), "cupsd (PID: 812)");
    assert_eq!(owner_label(&tab.cached_connections[1], Language::English), "Unknown");
    assert_eq!(owner_label(&tab.cached_connections[1], Language::Turkish), "Bilinmiyor");
}

#[test]
fn services_tab() {
    let mut tab = ServicesTab::new();
    assert!(tab.needs_reload(0));
    tab.loaded(Err("bus".to_string()), 10);
    assert!(tab.needs_reload(10));
    tab.loaded(Ok(vec![service("ssh.service", "OpenBSD Secure Shell"), service("cups.service", "Printing")]), 10);
    assert!(!tab.needs_reload(8_000_000_010));
    assert!(tab.needs_reload(8_000_000_011));
    tab.search_query = "SECURE".to_string();
    let shown = tab.filtered();
    assert_eq!(shown.len(), 1);
    assert_eq!(shown[0].name, "ssh.service");
    tab.apply_action_result(Ok("done".to_string()));
    assert_eq!(tab.status_success, Some("done".to_string()));
    assert!(tab.needs_reload(10));
    tab.apply_action_result(Err("failed".to_string()));
    assert_eq!(tab.status_error, Some("failed".to_string()));
    assert_eq!(tab.status_success, None);
}

#[test]
fn startup_tab() {
    let mut tab = StartupTab::new();
    assert!(tab.needs_reload(0));
    tab.loaded(
        vec![StartupApp { name: "A".to_string(), command: "a".to_string(), path: "/a.desktop".to_string(), enabled: true }],
        0,
    );
    assert!(!tab.needs_reload(10_000_000_000));
    assert!(tab.needs_reload(10_000_000_001));
    tab.toggle_result(Language::English, "A", false, Ok(()));
    assert_eq!(tab.success_message, Some("Startup status of 'A' updated to 'Disabled'.".to_string()));
    assert!(tab.needs_reload(0));
    tab.toggle_result(Language::Turkish, "A", true, Ok(()));
    assert_eq!(tab.success_message, Some("'A' başlangıç durumu 'Etkin' olarak güncellendi.".to_string()));
    tab.toggle_result(Language::Turkish, "A", true, Err("izin yok".to_string()));
    assert_eq!(tab.error_message, Some("'A' güncellenirken hata oluştu: izin yok".to_string()));
    assert_eq!(tab.success_message, None);
    tab.toggle_result(Language::English, "A", true, Err("denied".to_string()));
    assert_eq!(tab.error_message, Some("Error updating 'A': denied".to_string()));
}

#[test]
fn file_locks_tab() {
    let mut tab = FileLocksTab::new();
    tab.target_path = "   ".to_string();
    assert_eq!(tab.trigger_search(Language::English), None);
    assert_eq!(tab.status_error, Some("Please enter a valid file or folder path.".to_string()));
    assert_eq!(tab.trigger_search(Language::Turkish), None);
    assert_eq!(tab.status_error, Some("Lütfen geçerli bir dosya veya klasör yolu girin.".to_string()));
    tab.target_path = "/tmp/x".to_string();
    assert_eq!(tab.trigger_search(Language::English), Some("/tmp/x".to_string()));
    tab.search_finished(Language::English, Vec::new());
    assert_eq!(
        tab.status_success,
        Some("No processes found holding handles on this file or folder.".to_string())
    );
    assert_eq!(tab.status_error, None);
    let lock = FileLockInfo {
        pid: 5,
        process_name: "vim".to_string(),
        username: "u".to_string(),
        open_path: "/tmp/x".to_string(),
    };
    tab.search_finished(Language::Turkish, vec![lock]);
    assert_eq!(tab.status_success, Some("Toplam 1 süreç kilit bulundu.".to_string()));
    let again = vec![FileLockInfo { pid: 5, process_name: "vim".to_string(), username: "u".to_string(), open_path: "/tmp/x".to_string() }];
    tab.search_finished(Language::English, again);
    assert_eq!(tab.cached_locks.len(), 1);
    assert_eq!(tab.status_success, Some("Found total of 1 process locks.".to_string()));
    assert_eq!(tab.terminate_result(Language::English, 5, Ok(())), Some("/tmp/x".to_string()));
    assert_eq!(tab.status_success, Some("PID 5 terminated successfully.".to_string()));
    assert_eq!(tab.terminate_result(Language::Turkish, 5, Err("yok".to_string())), None);
    assert_eq!(tab.status_error, Some("Kapatma başarısız: yok".to_string()));
    assert_eq!(tab.status_success, None);
}
