use ae_taskmanager::process::{build_flat_tree, process_list, ProcessInfo, SortColumn, SortDirection};
use ae_taskmanager::tabs::{get_process_icon, header_label, open_location_report, process_icon_for_lowercase, web_search_report, parent_label, web_search_url, ProcessesTab};
use std::collections::HashSet;

fn proc_info(pid: u32, parent: Option<u32>, name: &str, cpu: f32, mem: u64) -> ProcessInfo {
    ProcessInfo {
        pid,
        parent_pid: parent,
        name: name.to_string(),
        cpu_usage_bits: cpu.to_bits(),
        memory_bytes: mem,
        status: "Run".to_string(),
        username: "user".to_string(),
        exe_path: String::new(),
        icon_path: None,
        gpu_memory_bytes: 0,
    }
}

fn sample() -> Vec<ProcessInfo> {
    vec![
        proc_info(1, None, "systemd", 0.5, 100),
        proc_info(20, Some(1), "bash", 2.0, 300),
        proc_info(21, Some(20), "vim", 10.0, 200),
        proc_info(30, Some(1), "Firefox", 40.0, 900),
        proc_info(31, Some(30), "firefox-bin", 5.0, 800),
        proc_info(99, Some(1234), "orphan", 1.0, 50),
    ]
}

fn pids(v: &[ProcessInfo]) -> Vec<u32> {
    v.iter().map(|p| p.pid).collect()
}

#[test]
fn process_list_sorts_and_filters() {
    let ps = sample();
    assert_eq!(
        pids(&process_list(&ps, "", SortColumn::Cpu, SortDirection::Descending)),
        vec![30, 21, 31, 20, 99, 1]
    );
    assert_eq!(
        pids(&process_list(&ps, "", SortColumn::Memory, SortDirection::Ascending)),
        vec![99, 1, 21, 20, 31, 30]
    );
    assert_eq!(
        pids(&process_list(&ps, "", SortColumn::Name, SortDirection::Ascending)),
        vec![20, 30, 31, 99, 1, 21]
    );
    assert_eq!(
        pids(&process_list(&ps, "FIRE", SortColumn::Pid, SortDirection::Descending)),
        vec![31, 30]
    );
    // The search also matches the decimal pid.
    assert_eq!(pids(&process_list(&ps, "2", SortColumn::Pid, SortDirection::Ascending)), vec![20, 21]);
    assert!(process_list(&ps, "nothing", SortColumn::Pid, SortDirection::Ascending).is_empty());
}

#[test]
fn process_list_keeps_order_of_equal_keys() {
    let ps = vec![
        proc_info(5, None, "a", 1.0, 10),
        proc_info(3, None, "b", 1.0, 10),
        proc_info(4, None, "c", 1.0, 10),
    ];
    assert_eq!(pids(&process_list(&ps, "", SortColumn::Memory, SortDirection::Descending)), vec![5, 3, 4]);
    assert_eq!(pids(&process_list(&ps, "", SortColumn::Cpu, SortDirection::Ascending)), vec![5, 3, 4]);
}

#[test]
fn flat_tree_rows() {
    let ps = sample();
    let mut expanded = HashSet::new();
    expanded.insert(1u32);
    let rows = build_flat_tree(&ps, &expanded, "", SortColumn::Pid, SortDirection::Ascending);
    let shape: Vec<(u32, usize, bool, bool)> = rows.iter().map(|r| (r.0.pid, r.1, r.2, r.3)).collect();
    assert_eq!(
        shape,
        vec![(1, 0, true, true), (20, 1, false, true), (30, 1, false, true), (99, 0, false, false)]
    );
    expanded.insert(20);
    let rows = build_flat_tree(&ps, &expanded, "", SortColumn::Pid, SortDirection::Descending);
    let shape: Vec<(u32, usize, bool, bool)> = rows.iter().map(|r| (r.0.pid, r.1, r.2, r.3)).collect();
    assert_eq!(
        shape,
        vec![(99, 0, false, false), (1, 0, true, true), (30, 1, false, true), (20, 1, true, true), (21, 2, false, false)]
    );
    // The search keeps only matching rows, wherever they are in the tree.
    let rows = build_flat_tree(&ps, &expanded, "vi", SortColumn::Pid, SortDirection::Ascending);
    let shape: Vec<(u32, usize)> = rows.iter().map(|r| (r.0.pid, r.1)).collect();
    assert_eq!(shape, vec![(21, 2)]);
}

#[test]
fn flat_tree_nests() {
    let ps = sample();
    let mut expanded = HashSet::new();
    for p in &ps {
        expanded.insert(p.pid);
    }
    let rows = build_flat_tree(&ps, &expanded, "", SortColumn::Name, SortDirection::Ascending);
    assert_eq!(rows[0].1, 0);
    for k in 0..rows.len() - 1 {
        assert!(rows[k + 1].1 <= rows[k].1 + 1);
        if !(rows[k].2 && rows[k].3) {
            assert!(rows[k + 1].1 <= rows[k].1);
        }
    }
    assert_eq!(rows.len(), ps.len());
}

#[test]
fn flat_tree_groups_under_parents() {
    let ps = sample();
    let mut expanded = HashSet::new();
    for p in &ps {
        expanded.insert(p.pid);
    }
    let rows = build_flat_tree(&ps, &expanded, "", SortColumn::Cpu, SortDirection::Descending);
    for k in 0..rows.len() {
        if rows[k].1 > 0 {
            let mut j = k;
            while rows[j].1 >= rows[k].1 {
                j -= 1;
            }
            assert_eq!(rows[j].1 + 1, rows[k].1);
            assert_eq!(rows[k].0.parent_pid, Some(rows[j].0.pid));
        }
    }
}

#[test]
fn processes_tab_state() {
    let mut tab = ProcessesTab::new();
    assert_eq!(tab.sort_column, SortColumn::Cpu);
    assert_eq!(tab.sort_direction, SortDirection::Descending);
    assert!(tab.expanded_pids.contains(&1));
    assert!(tab.cache_needs_update(7));
    let ps = sample();
    tab.refresh(&ps, 7);
    assert!(!tab.cache_needs_update(7));
    assert!(tab.cache_needs_update(8));
    assert_eq!(pids(&tab.cached_list), vec![30, 21, 31, 20, 99, 1]);
    tab.click_column(SortColumn::Cpu);
    assert_eq!(tab.sort_direction, SortDirection::Ascending);
    tab.click_column(SortColumn::Memory);
    assert_eq!(tab.sort_column, SortColumn::Memory);
    assert_eq!(tab.sort_direction, SortDirection::Descending);
    assert!(tab.cache_needs_update(7));
    tab.click_row(20);
    assert_eq!(tab.selected_pid, Some(20));
    tab.click_row(20);
    assert_eq!(tab.selected_pid, None);
    tab.click_row(21);
    tab.search_changed();
    assert_eq!(tab.selected_pid, None);
    tab.tree_view = true;
    tab.tree_view_toggled();
    assert_eq!(tab.last_state_update, None);
    tab.refresh(&ps, 7);
    assert_eq!(tab.cached_tree_list.len(), 4);
    tab.toggle_expanded(1, true, &ps);
    assert!(!tab.expanded_pids.contains(&1));
    assert_eq!(tab.cached_tree_list.len(), 2);
    tab.toggle_expanded(1, false, &ps);
    assert_eq!(tab.cached_tree_list.len(), 4);
}

#[test]
fn processes_tab_messages() {
    let mut tab = ProcessesTab::new();
    tab.selected_pid = Some(42);
    tab.end_task_result(42, Err("Operation not permitted".to_string()));
    assert_eq!(tab.kill_error, Some("Failed to kill PID 42: Operation not permitted".to_string()));
    assert_eq!(tab.selected_pid, Some(42));
    tab.end_task_result(42, Ok(()));
    assert_eq!(tab.kill_success, Some("Sent termination signal to PID 42".to_string()));
    assert_eq!(tab.kill_error, None);
    assert_eq!(tab.selected_pid, None);
    tab.menu_kill_result("vim", 7, Ok(()));
    assert_eq!(tab.kill_success, Some("vim (PID 7) işlemine sonlandırma sinyali gönderildi.".to_string()));
    tab.menu_kill_result("vim", 7, Err("no".to_string()));
    assert_eq!(tab.kill_error, Some("vim sonlandırılamadı: no".to_string()));
    assert_eq!(tab.kill_success, None);
    tab.selected_pid = Some(3);
    tab.apply_action_result(Ok("done".to_string()));
    assert_eq!(tab.kill_success, Some("done".to_string()));
    assert_eq!(tab.selected_pid, None);
    tab.apply_action_result(Err("bad".to_string()));
    assert_eq!(tab.kill_error, Some("bad".to_string()));
    assert_eq!(tab.kill_success, None);
    let p = sample().remove(2);
    tab.open_properties(p);
    assert_eq!(tab.show_properties.as_ref().map(|p| p.pid), Some(21));
    tab.close_properties();
    assert!(tab.show_properties.is_none());
}

#[test]
fn process_icons_and_labels() {
    assert_eq!(get_process_icon("Firefox"), "🦊");
    assert_eq!(get_process_icon("chromium-browser"), "🌐");
    assert_eq!(get_process_icon("Code"), "💻");
    assert_eq!(get_process_icon("bash"), "🐚");
    assert_eq!(get_process_icon("sshd"), "🐚");
    assert_eq!(get_process_icon("cargo"), "🦀");
    assert_eq!(get_process_icon("python3"), "🐍");
    assert_eq!(get_process_icon("dockerd"), "🐳");
    assert_eq!(get_process_icon("git"), "🐙");
    assert_eq!(get_process_icon("kitty"), "📟");
    assert_eq!(get_process_icon("systemd-journald"), "⚙");
    assert_eq!(get_process_icon("ae_taskmanager"), "📊");
    assert_eq!(get_process_icon("Xorg"), "📦");
    assert_eq!(header_label("PID", true, SortDirection::Descending), "PID  ▼");
    assert_eq!(header_label("PID", true, SortDirection::Ascending), "PID  ▲");
    assert_eq!(header_label("CPU %", false, SortDirection::Ascending), "CPU %");
    assert_eq!(parent_label(Some(1)), "1");
    assert_eq!(parent_label(None), "Yok (None)");
    assert_eq!(web_search_url("vim"), "https://www.google.com/search?q=vim Linux process");
}

#[test]
fn process_icon_from_lowercase_name() {
    assert_eq!(process_icon_for_lowercase("firefox-esr"), "🦊");
    // Matching is on the lowercase name only: an uppercase name passed
    // directly here matches nothing.
    assert_eq!(process_icon_for_lowercase("FIREFOX"), "📦");
    assert_eq!(get_process_icon("FIREFOX"), "🦊");
    assert_eq!(get_process_icon("ÖZEL-DOCKER"), "🐳");
}

#[test]
fn flat_tree_shows_processes_under_expanded_ancestors() {
    let ps = sample();
    for expanded_list in [vec![], vec![1u32], vec![1, 20], vec![20, 30], vec![1, 20, 30]] {
        let expanded: HashSet<u32> = expanded_list.iter().copied().collect();
        let rows = build_flat_tree(&ps, &expanded, "", SortColumn::Pid, SortDirection::Ascending);
        for p in &ps {
            // Walk up the parent chain: depth and whether every ancestor is expanded.
            let mut depth = 0usize;
            let mut all_expanded = true;
            let mut cur = p;
            while let Some(parent) = cur.parent_pid.and_then(|pp| ps.iter().find(|q| q.pid == pp)) {
                depth += 1;
                all_expanded &= expanded.contains(&parent.pid);
                cur = parent;
            }
            let shown: Vec<_> = rows.iter().filter(|r| r.0.pid == p.pid).collect();
            assert_eq!(shown.len(), if all_expanded { 1 } else { 0 }, "pid {}", p.pid);
            for r in shown {
                assert_eq!(r.1, depth);
                assert_eq!(r.2, expanded.contains(&p.pid));
                assert_eq!(r.3, ps.iter().any(|q| q.parent_pid == Some(p.pid)));
            }
        }
    }
}

#[test]
fn process_menu_open_reports() {
    assert_eq!(open_location_report(Ok(())), None);
    assert_eq!(
        open_location_report(Err("No such file or directory".to_string())),
        Some(Err("Dosya konumu açılamadı: No such file or directory".to_string()))
    );
    assert_eq!(web_search_report(Ok(())), None);
    assert_eq!(
        web_search_report(Err("xdg-open missing".to_string())),
        Some(Err("Tarayıcı açılamadı: xdg-open missing".to_string()))
    );
}
