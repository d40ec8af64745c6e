use ae_taskmanager::filelock::{find_locking_processes, resolve_username_from_uid, ProcEntry};
use ae_taskmanager::paths::{file_name_text, same_path, starts_with_path, stem_and_extension};

const PASSWD: &str = "root:x:0:0:root:/root:/bin/bash\nbroken\nalice:x:1000:1000::/home/alice:/bin/sh\nbob:x:+1001:1001::/home/bob:/bin/sh\n";

fn entry(name: &str, fds: Option<Vec<&str>>, uid: Option<u32>, comm: Option<&str>) -> ProcEntry {
    ProcEntry {
        name: name.to_string(),
        fd_targets: fds.map(|v| v.into_iter().map(|s| s.to_string()).collect()),
        owner_uid: uid,
        comm: comm.map(|s| s.to_string()),
    }
}

#[test]
fn usernames() {
    assert_eq!(resolve_username_from_uid(Some(PASSWD), 0), "root");
    assert_eq!(resolve_username_from_uid(Some(PASSWD), 1000), "alice");
    assert_eq!(resolve_username_from_uid(Some(PASSWD), 1001), "bob");
    assert_eq!(resolve_username_from_uid(Some(PASSWD), 42), "42");
    assert_eq!(resolve_username_from_uid(None, 7), "7");
}

#[test]
fn path_semantics() {
    assert!(starts_with_path("/home/u/docs/a.txt", "/home/u"));
    assert!(starts_with_path("/home/u", "/home/u/"));
    assert!(!starts_with_path("/home/user", "/home/u"));
    assert!(starts_with_path("/a//b/./c", "/a/b"));
    assert!(!starts_with_path("a/b", "/a"));
    assert!(same_path("/a/b/", "/a//b"));
    assert!(!same_path("/a/b", "/a/b/c"));
    assert_eq!(file_name_text("/usr/bin/vim"), Some("vim".to_string()));
    assert_eq!(file_name_text("/usr/bin/"), Some("bin".to_string()));
    assert_eq!(file_name_text("/"), None);
    assert_eq!(file_name_text("a/.."), None);
    assert_eq!(file_name_text("."), None);
    assert_eq!(
        stem_and_extension("/etc/xdg/autostart/app.desktop"),
        (Some("app".to_string()), Some("desktop".to_string()))
    );
    assert_eq!(stem_and_extension("/x/.bashrc"), (Some(".bashrc".to_string()), None));
    assert_eq!(stem_and_extension("/x/archive.tar.gz"), (Some("archive.tar".to_string()), Some("gz".to_string())));
    assert_eq!(stem_and_extension("/x/noext"), (Some("noext".to_string()), None));
    assert_eq!(stem_and_extension("/x/dot."), (Some("dot".to_string()), Some(String::new())));
    assert_eq!(stem_and_extension("/"), (None, None));
}

#[test]
fn locks_found_per_process() {
    let entries = vec![
        entry("1", Some(vec!["/dev/null", "/home/alice/doc.odt", "/home/alice/other"]), Some(1000), Some("soffice\n")),
        entry("self", Some(vec!["/home/alice/doc.odt"]), Some(0), Some("x")),
        entry("2", None, Some(0), Some("init")),
        entry("3", Some(vec!["/home/alicex/doc.odt"]), Some(0), None),
        entry("4", Some(vec!["/home/alice"]), None, None),
    ];
    let locks = find_locking_processes("/home/alice", &entries, Some(PASSWD));
    assert_eq!(locks.len(), 2);
    assert_eq!(locks[0].pid, 1);
    assert_eq!(locks[0].process_name, "soffice");
    assert_eq!(locks[0].username, "alice");
    assert_eq!(locks[0].open_path, "/home/alice/doc.odt");
    assert_eq!(locks[1].pid, 4);
    assert_eq!(locks[1].username, "Unknown");
    assert_eq!(locks[1].process_name, "Unknown");
    let exact = find_locking_processes("/home/alice/doc.odt", &entries, None);
    assert_eq!(exact.len(), 1);
    assert_eq!(exact[0].username, "1000");
}
