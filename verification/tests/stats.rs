use ae_taskmanager::command::CommandOutcome;
use ae_taskmanager::stats::{
    average_frequency, counter_delta, detect_gpu, disk_deltas, network_totals, parse_compute_apps,
    parse_nvidia_memory, parse_u64_or_zero, read_proc_diskstats, NetworkInterfaceInfo,
};

const DISKSTATS: &str = "   8       0 sda 100 0 2000 10 50 0 3000 20 0 30 30 0 0 0 0\n   8       1 sda1 100 0 9999 10 50 0 9999 20 0 30 30 0 0 0 0\n 259       0 nvme0n1 1 0 10 1 1 0 20 1 0 1 1 0 0 0 0\n 259       1 nvme0n1p1 1 0 555 1 1 0 555 1 0 1 1 0 0 0 0\n   7       0 loop0 1 0 777 1 1 0 777 1 0 1 1 0 0 0 0\n 8 16 sdb 1 0 x 1 1 0 5 1 0 1 1 0 0\n 8 32 sdc 1 2 3\n";

#[test]
fn diskstats_totals() {
    let (read, written) = read_proc_diskstats(DISKSTATS);
    assert_eq!(read, (2000 + 10) * 512);
    assert_eq!(written, (3000 + 20) * 512);
    assert_eq!(read_proc_diskstats(""), (0, 0));
}

#[test]
fn counters() {
    assert_eq!(counter_delta(0, 500), None);
    assert_eq!(counter_delta(100, 500), Some(400));
    assert_eq!(counter_delta(500, 100), Some(0));
    assert_eq!(parse_u64_or_zero(" 4096\n"), 4096);
    assert_eq!(parse_u64_or_zero("n/a"), 0);
}

#[test]
fn nvidia_outputs() {
    let m = parse_nvidia_memory("37, 1024, 8192, NVIDIA GeForce RTX 3070\n").unwrap();
    assert_eq!(m.used_bytes, 1024 * 1024 * 1024);
    assert_eq!(m.total_bytes, 8192u64 * 1024 * 1024);
    assert_eq!(m.model, "NVIDIA GeForce RTX 3070");
    let m = parse_nvidia_memory("[N/A], [N/A], 4096, Quadro\n").unwrap();
    assert_eq!(m.used_bytes, 0);
    assert!(parse_nvidia_memory("1, 2, 3").is_none());
    let apps = parse_compute_apps("1234, 256\n99, x\n1234, 512\n77, 1\n");
    assert_eq!(apps.len(), 2);
    assert_eq!(apps.get(&1234), Some(&(512u64 * 1024 * 1024)));
    assert_eq!(apps.get(&77), Some(&(1024u64 * 1024)));
    let _unused = CommandOutcome::NotStarted { error: String::new() };
}

#[test]
fn gpu_identity() {
    let g = detect_gpu(true, true, None);
    assert!(g.has_gpu && g.is_nvidia && !g.is_amd);
    assert_eq!(g.brand, "NVIDIA");
    let g = detect_gpu(false, true, Some("0x1002\n"));
    assert!(g.is_amd);
    assert_eq!((g.brand.as_str(), g.model.as_str()), ("AMD", "AMD Radeon Graphics"));
    let g = detect_gpu(false, true, Some("0x8086\n"));
    assert_eq!((g.brand.as_str(), g.model.as_str()), ("Intel", "Intel HD Graphics"));
    let g = detect_gpu(false, true, None);
    assert_eq!((g.brand.as_str(), g.model.as_str()), ("AMD", "AMD/Intel Graphics"));
    let g = detect_gpu(false, true, Some("0x10de"));
    assert_eq!((g.brand.as_str(), g.model.as_str()), ("AMD", "No Active GPU"));
    let g = detect_gpu(false, false, Some("0x1002"));
    assert!(!g.has_gpu);
    assert_eq!((g.brand.as_str(), g.model.as_str()), ("Unknown", "No Active GPU"));
}

#[test]
fn network_and_cpu_totals() {
    let ifaces = vec![
        NetworkInterfaceInfo { name: "lo".to_string(), rx_bytes_sec: 10, tx_bytes_sec: 10, total_rx: 1000, total_tx: 1000 },
        NetworkInterfaceInfo { name: "eth0".to_string(), rx_bytes_sec: 5, tx_bytes_sec: 7, total_rx: u64::MAX, total_tx: 3 },
    ];
    let t = network_totals(&ifaces);
    assert_eq!(t.rx_bytes_sec, 15);
    assert_eq!(t.tx_bytes_sec, 17);
    assert_eq!(t.total_rx_bytes, 999);
    assert_eq!(t.total_tx_bytes, 1003);
    assert_eq!(average_frequency(&vec![]), 0);
    assert_eq!(average_frequency(&vec![2000, 3000, 3001]), 2667);
}

#[test]
fn disk_deltas_follow_the_read_counter() {
    // First reading: no rates yet.
    assert_eq!(disk_deltas(0, 0, 5000, 700), None);
    // A write counter that stays at zero does not hold back the read rate.
    assert_eq!(disk_deltas(1000, 0, 5000, 0), Some((4000, 0)));
    assert_eq!(disk_deltas(1000, 200, 5000, 900), Some((4000, 700)));
    // Counters that went down count as no growth.
    assert_eq!(disk_deltas(5000, 900, 1000, 100), Some((0, 0)));
    // Only the read counter decides whether there was a previous reading.
    assert_eq!(disk_deltas(0, 300, 5000, 900), None);
}
