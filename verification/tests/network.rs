use ae_taskmanager::netconn::{
    get_active_connections, get_tcp_state, parse_ipv4_hex, parse_ipv6_hex, parse_proc_net_file,
    pid_of_entry, process_name_of, record_process_sockets, socket_inode, socket_owners_of,
    NetworkConnection,
    ProcNetTables,
};
use ae_taskmanager::filelock::ProcEntry;
use ae_taskmanager::ipv6::ipv6_display;
use std::collections::HashMap;

const TCP: &str = "  sl  local_address rem_address   st tx_queue rx_queue tr tm->when retrnsmt   uid  timeout inode\n   0: 0100007F:1F90 00000000:0000 0A 00000000:00000000 00:00000000 00000000  1000        0 4242 1 0000000000000000 100 0 0 10 0\n   1: 0F02000A:C350 2A00A8C0:01BB 01 00000000:00000000 00:00000000 00000000  1000        0 777 1\n\n   2: short line\n";

const TCP6: &str = "  sl  local_address                         remote_address                        st\n   0: 00000000000000000000000001000000:0035 00000000000000000000000000000000:0000 0A 00000000:00000000 00:00000000 00000000     0        0 0 1\n";

#[test]
fn hex_addresses() {
    assert_eq!(parse_ipv4_hex("0100007F:1F90"), Some("127.0.0.1:8080".to_string()));
    assert_eq!(parse_ipv4_hex("00000000:0000"), Some("0.0.0.0:0".to_string()));
    assert_eq!(parse_ipv4_hex("0100007F"), None);
    assert_eq!(parse_ipv4_hex("0100007G:0050"), None);
    assert_eq!(parse_ipv4_hex("1:2:3"), None);
    assert_eq!(
        parse_ipv6_hex("00000000000000000000000001000000:0050"),
        Some("::1:80".to_string())
    );
    assert_eq!(
        parse_ipv6_hex("B80D0120000000000000000001000000:01BB"),
        Some("2001:db8::1:443".to_string())
    );
    assert_eq!(
        parse_ipv6_hex("0000000000000000FFFF00000100007F:0016"),
        Some("::ffff:127.0.0.1:22".to_string())
    );
    assert_eq!(parse_ipv6_hex("0000:0050"), None);
}

#[test]
fn ipv6_text_forms() {
    let samples: Vec<([u8; 16], &str)> = vec![
        ([0; 16], "::"),
        ([0, 0, 0, 0, 0, 0, 0, 0, 0, 0, 0, 0, 0, 0, 0, 1], "::1"),
        ([0x20, 0x01, 0x0d, 0xb8, 0, 0, 0, 0, 0, 1, 0, 0, 0, 0, 0, 1], "2001:db8::1:0:0:1"),
        ([0x20, 0x01, 0x0d, 0xb8, 0, 1, 0, 0, 0, 1, 0, 0, 0, 0, 0, 1], "2001:db8:1:0:1::1"),
        ([0xfe, 0x80, 0, 0, 0, 0, 0, 0, 0x02, 0x1a, 0x2b, 0xff, 0xfe, 0x3c, 0x4d, 0x5e], "fe80::21a:2bff:fe3c:4d5e"),
        ([0, 0, 0, 0, 0, 0, 0, 0, 0, 0, 0xff, 0xff, 192, 168, 1, 1], "::ffff:192.168.1.1"),
        ([0, 0, 0, 0, 0, 0, 0, 0, 0, 0, 0, 0, 10, 0, 0, 1], "::a00:1"),
        ([1, 0, 0, 0, 0, 0, 0, 0, 0, 0, 0, 0, 0, 0, 0, 0], "100::"),
        ([0, 1, 0, 0, 0, 2, 0, 0, 0, 0, 0, 3, 0, 0, 0, 4], "1:0:2::3:0:4"),
        ([0, 1, 0, 2, 0, 3, 0, 4, 0, 5, 0, 6, 0, 7, 0, 8], "1:2:3:4:5:6:7:8"),
    ];
    for (b, expected) in samples {
        let text: String = ipv6_display(&b.to_vec()).into_iter().collect();
        assert_eq!(text, expected);
    }
}

#[test]
fn tcp_states() {
    assert_eq!(get_tcp_state("01"), "ESTABLISHED");
    assert_eq!(get_tcp_state("0A"), "LISTEN");
    assert_eq!(get_tcp_state("06"), "TIME_WAIT");
    assert_eq!(get_tcp_state("0a"), "UNKNOWN");
    assert_eq!(get_tcp_state("FF"), "UNKNOWN");
}

#[test]
fn proc_net_rows() {
    let mut owners: HashMap<u64, (u32, String)> = HashMap::new();
    owners.insert(4242, (10, "nginx".to_string()));
    let mut list: Vec<NetworkConnection> = Vec::new();
    parse_proc_net_file(TCP, "TCP", false, &owners, &mut list);
    assert_eq!(list.len(), 2);
    assert_eq!(list[0].local_address, "127.0.0.1:8080");
    assert_eq!(list[0].remote_address, "*:*");
    assert_eq!(list[0].state, "LISTEN");
    assert_eq!(list[0].pid, Some(10));
    assert_eq!(list[0].process_name, "nginx");
    assert_eq!(list[1].local_address, "10.0.2.15:50000");
    assert_eq!(list[1].remote_address, "192.168.0.42:443");
    assert_eq!(list[1].state, "ESTABLISHED");
    assert_eq!(list[1].pid, None);
    assert_eq!(list[1].process_name, "Unknown");
}

#[test]
fn active_connections_in_table_order() {
    let owners: HashMap<u64, (u32, String)> = HashMap::new();
    let tables = ProcNetTables {
        tcp: Some(TCP.to_string()),
        tcp6: Some(TCP6.to_string()),
        udp: Some(TCP.to_string()),
        udp6: None,
    };
    let list = get_active_connections(&tables, &owners);
    let remotes: Vec<&str> = list.iter().map(|c| c.remote_address.as_str()).collect();
    // Listening TCP sockets show `*:*`; an unconnected UDP socket keeps its zero endpoint.
    assert_eq!(remotes, vec!["*:*", "192.168.0.42:443", "*:*", "0.0.0.0:0", "192.168.0.42:443"]);
    let summary: Vec<(String, String, String)> = list
        .iter()
        .map(|c| (c.protocol.clone(), c.local_address.clone(), c.state.clone()))
        .collect();
    assert_eq!(
        summary,
        vec![
            ("TCP".to_string(), "127.0.0.1:8080".to_string(), "LISTEN".to_string()),
            ("TCP".to_string(), "10.0.2.15:50000".to_string(), "ESTABLISHED".to_string()),
            ("TCP".to_string(), "::1:53".to_string(), "LISTEN".to_string()),
            ("UDP".to_string(), "127.0.0.1:8080".to_string(), "ACTIVE".to_string()),
            ("UDP".to_string(), "10.0.2.15:50000".to_string(), "ACTIVE".to_string()),
        ]
    );
}

#[test]
fn socket_owners() {
    assert_eq!(socket_inode("socket:[12345]"), Some(12345));
    assert_eq!(socket_inode("socket:[]"), None);
    assert_eq!(socket_inode("pipe:[12]"), None);
    assert_eq!(socket_inode("/dev/null"), None);
    let mut owners: HashMap<u64, (u32, String)> = HashMap::new();
    let targets = vec![
        "socket:[5]".to_string(),
        "/dev/pts/0".to_string(),
        "socket:[6]".to_string(),
    ];
    record_process_sockets(&mut owners, 33, &"sshd".to_string(), &targets);
    assert_eq!(owners.len(), 2);
    assert_eq!(owners.get(&5), Some(&(33, "sshd".to_string())));
    assert_eq!(owners.get(&6), Some(&(33, "sshd".to_string())));
    assert_eq!(pid_of_entry("1234"), Some(1234));
    assert_eq!(pid_of_entry("self"), None);
    assert_eq!(process_name_of(Some("bash\n")), "bash");
    assert_eq!(process_name_of(None), "Unknown");
}

fn entry(name: &str, targets: Option<Vec<&str>>, comm: Option<&str>) -> ProcEntry {
    ProcEntry {
        name: name.to_string(),
        fd_targets: targets.map(|v| v.iter().map(|t| t.to_string()).collect()),
        owner_uid: None,
        comm: comm.map(|c| c.to_string()),
    }
}

#[test]
fn socket_owners_from_proc_entries() {
    let entries = vec![
        entry("1", Some(vec!["socket:[100]", "/dev/null"]), Some("systemd\n")),
        entry("self", Some(vec!["socket:[200]"]), Some("x\n")),
        entry("42", None, Some("hidden\n")),
        entry("77", Some(vec!["socket:[300]", "socket:[100]"]), None),
    ];
    let owners = socket_owners_of(&entries);
    assert_eq!(owners.len(), 2);
    assert_eq!(owners.get(&100), Some(&(77, "Unknown".to_string())));
    assert_eq!(owners.get(&300), Some(&(77, "Unknown".to_string())));
    assert_eq!(owners.get(&200), None);
    let owners = socket_owners_of(&vec![entry("1", Some(vec!["socket:[100]"]), Some("systemd\n"))]);
    assert_eq!(owners.get(&100), Some(&(1, "systemd".to_string())));
}
