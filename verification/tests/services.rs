use ae_taskmanager::command::{admin_kill_report, admin_kill_result, kill_result, kill_signal, CommandOutcome};
use ae_taskmanager::systemd::{
    action_report, list_systemd_services, manage_service_command, manage_service_result,
    parse_service_list,
};

fn ran(success: bool, stdout: &str, stderr: &str) -> CommandOutcome {
    CommandOutcome::Ran { success, stdout: stdout.to_string(), stderr: stderr.to_string() }
}

const UNITS: &str = "  accounts-daemon.service  loaded active   running Accounts Service\n\
bluetooth.service        loaded inactive dead    Bluetooth   service\n\
\n\
broken line\n\
x.service loaded failed failed\n";

#[test]
fn service_table() {
    let list = parse_service_list(UNITS);
    assert_eq!(list.len(), 3);
    assert_eq!(list[0].name, "accounts-daemon.service");
    assert_eq!(list[0].load_state, "loaded");
    assert_eq!(list[0].active_state, "active");
    assert_eq!(list[0].sub_state, "running");
    assert_eq!(list[0].description, "Accounts Service");
    assert_eq!(list[1].description, "Bluetooth service");
    assert_eq!(list[2].name, "x.service");
    assert_eq!(list[2].description, "");
}

#[test]
fn service_listing_outcomes() {
    assert_eq!(list_systemd_services(ran(true, UNITS, "")).map(|l| l.len()), Ok(3));
    assert_eq!(
        list_systemd_services(ran(false, "", "Failed to connect to bus")).err(),
        Some("Failed to connect to bus".to_string())
    );
    // Output on standard error is an error even when systemctl exits successfully.
    assert_eq!(
        list_systemd_services(ran(true, UNITS, "Warning: journal rotated")).err(),
        Some("Warning: journal rotated".to_string())
    );
    assert_eq!(
        list_systemd_services(CommandOutcome::NotStarted { error: "No such file".to_string() }).err(),
        Some("Failed to execute systemctl: No such file".to_string())
    );
}

#[test]
fn service_actions() {
    assert_eq!(
        manage_service_command("ssh.service", "restart"),
        Ok(vec!["systemctl".to_string(), "restart".to_string(), "ssh.service".to_string()])
    );
    for a in ["start", "stop", "enable", "disable"] {
        assert!(manage_service_command("x", a).is_ok());
    }
    assert_eq!(
        manage_service_command("x", "mask").err(),
        Some("Invalid systemd action requested".to_string())
    );
    assert_eq!(manage_service_command("x", "Start").err(), Some("Invalid systemd action requested".to_string()));
    assert_eq!(manage_service_result(ran(true, "", "")), Ok(()));
    assert_eq!(
        manage_service_result(ran(false, "", "  \n")),
        Err("Yetkilendirme iptal edildi veya başarısız oldu (Authorization cancelled or failed)".to_string())
    );
    assert_eq!(manage_service_result(ran(false, "", "Unit not found.")), Err("Unit not found.".to_string()));
    assert_eq!(
        manage_service_result(CommandOutcome::NotStarted { error: "denied".to_string() }),
        Err("Failed to spawn pkexec: denied".to_string())
    );
    assert_eq!(
        action_report("ssh.service", "stop", Ok(())),
        Ok("Servis 'ssh.service' üzerinde 'stop' işlemi başarıyla tamamlandı.".to_string())
    );
    assert_eq!(
        action_report("ssh.service", "stop", Err("x".to_string())),
        Err("Servis işlemi başarısız: x".to_string())
    );
}

#[test]
fn kill_outcomes() {
    assert_eq!(kill_signal(true), "-9");
    assert_eq!(kill_signal(false), "-15");
    assert_eq!(kill_result(ran(true, "", "")), Ok(()));
    assert_eq!(
        kill_result(ran(false, "", "")),
        Err("Unknown error (perhaps permission denied)".to_string())
    );
    assert_eq!(kill_result(ran(false, "", " ")), Err(" ".to_string()));
    assert_eq!(
        kill_result(CommandOutcome::NotStarted { error: "nope".to_string() }),
        Err("nope".to_string())
    );
    assert_eq!(
        admin_kill_result(ran(false, "", " ")),
        Err("Yetkilendirme iptal edildi veya başarısız oldu (Authentication cancelled/failed)".to_string())
    );
    assert_eq!(admin_kill_result(ran(false, "", "bad")), Err("bad".to_string()));
    assert_eq!(
        admin_kill_report("vim", 12, ran(true, "", "")),
        Ok("vim (PID 12) yönetici ayrıcalıklarıyla başarıyla zorla kapatıldı.".to_string())
    );
    assert_eq!(
        admin_kill_report("vim", 12, ran(false, "", "")),
        Err("vim (PID 12) yönetici olarak kapatılamadı: Yetkilendirme iptal edildi veya başarısız oldu.".to_string())
    );
    assert_eq!(
        admin_kill_report("vim", 12, CommandOutcome::NotStarted { error: "e".to_string() }),
        Err("pkexec çalıştırılamadı: e".to_string())
    );
}
