use mini_coreutils::error::PsError;
use mini_coreutils::pattern::PidMatcher;
use mini_coreutils::process::{examine, list_entries, owned_by, ps, ps_with, ProcessRecord, RegistryEntry, Snapshot};

const HEADER: &str = "PID    TTY    TIME    CMD";

fn status(name: &str, uid: &str) -> String {
    format!("Name:\t{}\nState:\tS (sleeping)\nPid:\t1\nUid:\t{}\t{}\t{}\t{}\nGid:\t5\t5\t5\t5\n", name, uid, uid, uid, uid)
}

fn stat(pid: &str, name: &str, tty: &str) -> String {
    format!("{} ({}) S 1 {} {} {} 77 4194560 0\n", pid, name, pid, pid, tty)
}

fn entry(pid: &str, name: &str, uid: &str, tty: &str) -> RegistryEntry {
    RegistryEntry {
        name: pid.to_string(),
        status: Some(status(name, uid)),
        stat: Some(stat(pid, name, tty)),
    }
}

fn other(name: &str) -> RegistryEntry {
    RegistryEntry { name: name.to_string(), status: None, stat: None }
}

fn snapshot(uid: &str, registry: Vec<RegistryEntry>) -> Snapshot {
    Snapshot { self_status: Some(status("ps", uid)), registry: Some(registry) }
}

fn sorted(mut lines: Vec<String>) -> Vec<String> {
    lines.sort();
    lines
}

#[test]
fn ps_prints_header_and_one_line_per_process() {
    let snap = snapshot("1000", vec![entry("10", "bash", "1000", "34816"), entry("7", "vim", "1000", "34817")]);
    assert_eq!(
        ps(&snap),
        Ok(vec![
            HEADER.to_string(),
            "10 34816 00:00:00 bash".to_string(),
            "7 34817 00:00:00 vim".to_string(),
        ])
    );
}

#[test]
fn ps_of_empty_registry_is_header_only() {
    assert_eq!(ps(&snapshot("1000", Vec::new())), Ok(vec![HEADER.to_string()]));
}

#[test]
fn ps_lists_every_own_process_once_in_any_order() {
    let make = |order: &[usize]| -> Vec<RegistryEntry> {
        let pids = ["1", "22", "333", "4444", "55555"];
        order.iter().map(|&i| entry(pids[i], "job", "1000", "0")).collect()
    };
    let expected = sorted(vec![
        "1 0 00:00:00 job".to_string(),
        "22 0 00:00:00 job".to_string(),
        "333 0 00:00:00 job".to_string(),
        "4444 0 00:00:00 job".to_string(),
        "55555 0 00:00:00 job".to_string(),
    ]);
    for order in [[0, 1, 2, 3, 4], [4, 3, 2, 1, 0], [2, 0, 4, 1, 3]] {
        let lines = ps(&snapshot("1000", make(&order))).unwrap();
        assert_eq!(lines.len(), 6);
        assert_eq!(lines[0], HEADER);
        for (k, &i) in order.iter().enumerate() {
            assert_eq!(lines[k + 1], expected[i]);
        }
        assert_eq!(sorted(lines[1..].to_vec()), expected);
    }
}

#[test]
fn ps_leaves_out_processes_of_others() {
    let snap = snapshot(
        "1000",
        vec![
            entry("1", "init", "0", "0"),
            entry("10", "bash", "1000", "34816"),
            entry("11", "sshd", "100", "0"),
            entry("12", "top", "10000", "34816"),
            entry("13", "cat", "100", "34816"),
        ],
    );
    assert_eq!(ps(&snap), Ok(vec![HEADER.to_string(), "10 34816 00:00:00 bash".to_string()]));
    let nobody = snapshot("4", vec![entry("1", "init", "0", "0"), entry("10", "bash", "1000", "1")]);
    assert_eq!(ps(&nobody), Ok(vec![HEADER.to_string()]));
}

#[test]
fn ps_takes_only_numeric_entries_for_processes() {
    let mut reg = vec![other("acpi"), other("sys"), other("self"), other("thread-self")];
    for name in ["fs2", "2fs", "1.5", "-3", " 4", "", "12 "] {
        let mut e = entry("10", "trap", "1000", "0");
        e.name = name.to_string();
        reg.push(e);
    }
    reg.insert(2, entry("10", "bash", "1000", "34816"));
    assert_eq!(ps(&snapshot("1000", reg)), Ok(vec![HEADER.to_string(), "10 34816 00:00:00 bash".to_string()]));
}

#[test]
fn ps_skips_processes_that_went_away() {
    let mut gone = entry("11", "gone", "1000", "0");
    gone.status = None;
    let mut half_gone = entry("12", "halfgone", "1000", "0");
    half_gone.stat = None;
    let snap = snapshot(
        "1000",
        vec![entry("10", "bash", "1000", "34816"), gone, half_gone, other("13"), entry("14", "vim", "1000", "34817")],
    );
    assert_eq!(
        ps(&snap),
        Ok(vec![
            HEADER.to_string(),
            "10 34816 00:00:00 bash".to_string(),
            "14 34817 00:00:00 vim".to_string(),
        ])
    );
}

#[test]
fn ps_skips_processes_without_known_owner() {
    let mut e = entry("11", "odd", "1000", "0");
    e.status = Some("Name:\todd\nState:\tZ\n".to_string());
    let mut f = entry("12", "odd", "1000", "0");
    f.status = Some(String::new());
    assert_eq!(ps(&snapshot("1000", vec![e, f])), Ok(vec![HEADER.to_string()]));
}

#[test]
fn ps_shows_empty_fields_of_malformed_records() {
    let e = RegistryEntry {
        name: "15".to_string(),
        status: Some("Uid:\t1000\n".to_string()),
        stat: Some("15 (x) S 1".to_string()),
    };
    assert_eq!(ps(&snapshot("1000", vec![e])), Ok(vec![HEADER.to_string(), "15  00:00:00 ".to_string()]));
}

#[test]
fn ps_fails_without_own_owner_line() {
    let snap = Snapshot {
        self_status: Some("Name:\tps\nState:\tR (running)\nGid:\t5\t5\t5\t5\n".to_string()),
        registry: Some(vec![entry("10", "bash", "1000", "34816"), entry("11", "odd", "", "0")]),
    };
    assert_eq!(ps(&snap), Err(PsError::NoOwnerIdentity));
}

#[test]
fn ps_fails_without_own_status_record() {
    let snap = Snapshot { self_status: None, registry: Some(vec![entry("10", "bash", "1000", "34816")]) };
    assert_eq!(ps(&snap), Err(PsError::SelfStatusUnreadable));
    let neither = Snapshot { self_status: None, registry: None };
    assert_eq!(ps(&neither), Err(PsError::SelfStatusUnreadable));
}

#[test]
fn ps_fails_without_registry() {
    let snap = Snapshot { self_status: Some(status("ps", "1000")), registry: None };
    assert_eq!(ps(&snap), Err(PsError::RegistryUnreadable));
    let no_owner = Snapshot { self_status: Some(String::new()), registry: None };
    assert_eq!(ps(&no_owner), Err(PsError::NoOwnerIdentity));
}

#[test]
fn ps_twice_gives_the_same() {
    let make = || {
        snapshot(
            "1000",
            vec![entry("10", "bash", "1000", "34816"), other("sys"), entry("3", "x", "0", "0"), entry("14", "vim", "1000", "34817")],
        )
    };
    let first = ps(&make()).unwrap();
    let second = ps(&make()).unwrap();
    assert_eq!(first, second);
    let snap = make();
    assert_eq!(ps(&snap), ps(&snap));
    let mut reversed = make();
    reversed.registry.as_mut().unwrap().reverse();
    let third = ps(&reversed).unwrap();
    assert_eq!(third[0], HEADER);
    assert_eq!(sorted(third[1..].to_vec()), sorted(first[1..].to_vec()));
}

#[test]
fn ps_with_given_matcher_agrees_with_ps() {
    let m = PidMatcher::new().unwrap();
    let snap = snapshot("7", vec![entry("10", "a b", "7", "1"), other("x"), entry("11", "c", "8", "2")]);
    assert_eq!(ps_with(&m, &snap), ps(&snap));
    assert_eq!(ps_with(&m, &snap), Ok(vec![HEADER.to_string(), "10 1 00:00:00 a b".to_string()]));
}

#[test]
fn ps_name_with_spaces_keeps_terminal() {
    let snap = snapshot("1000", vec![entry("42", "my prog", "1000", "7")]);
    assert_eq!(ps(&snap), Ok(vec![HEADER.to_string(), "42 7 00:00:00 my prog".to_string()]));
}

#[test]
fn list_entries_gives_lines_without_header() {
    let m = PidMatcher::new().unwrap();
    let reg = vec![entry("10", "bash", "1000", "34816"), entry("1", "init", "0", "0")];
    assert_eq!(list_entries(&m, "1000", &reg), vec!["10 34816 00:00:00 bash".to_string()]);
    assert_eq!(list_entries(&m, "0", &reg), vec!["1 0 00:00:00 init".to_string()]);
    assert_eq!(list_entries(&m, "", &reg), Vec::<String>::new());
}

#[test]
fn ps_owner_tokens_may_be_set_apart_by_spaces() {
    let e = RegistryEntry {
        name: "7".to_string(),
        status: Some("Uid:\t1000 1001 1002 1003\nName:\tsh\n".to_string()),
        stat: Some("7 (sh) S 1 7 7 34816 7".to_string()),
    };
    let own = Snapshot { self_status: Some("Uid:\t1000 0 0 0\n".to_string()), registry: Some(vec![e]) };
    assert_eq!(ps(&own), Ok(vec![HEADER.to_string(), "7 34816 00:00:00 sh".to_string()]));
}

#[test]
fn owned_by_compares_declared_owner() {
    assert!(owned_by("Uid:\t1000 1001 1002 1003\n", "1000"));
    assert!(!owned_by("Uid:\t1000 1001 1002 1003\n", "1000 1001 1002 1003"));
    assert!(!owned_by("Uid:\t1000 1001 1002 1003\n", "1001"));
    assert!(owned_by(&status("x", "1000"), "1000"));
    assert!(!owned_by(&status("x", "1000"), "100"));
    assert!(!owned_by(&status("x", "100"), "1000"));
    assert!(!owned_by("Name:\tx\n", ""));
    assert!(!owned_by("Uid:\t\n", ""));
}

#[test]
fn examine_builds_the_record() {
    let m = PidMatcher::new().unwrap();
    let rec = examine(&m, "1000", &entry("10", "bash", "1000", "34816")).unwrap();
    assert_eq!(rec.pid, "10");
    assert_eq!(rec.owner_id, "1000");
    assert_eq!(rec.display_name, "bash");
    assert_eq!(rec.tty, "34816");
    assert_eq!(rec.cpu_time, "00:00:00");
    assert_eq!(rec.line(), "10 34816 00:00:00 bash");
    assert!(examine(&m, "1", &entry("10", "bash", "1000", "34816")).is_none());
    assert!(examine(&m, "1000", &other("10")).is_none());
    assert!(examine(&m, "1000", &other("net")).is_none());
}

#[test]
fn record_is_read_from_both_records() {
    let rec = ProcessRecord::read("5", "Name:\tkworker/0:1\nUid:\t0\t0\t0\t0\n", "5 (kworker/0:1) I 2 0 0 0 -1");
    assert_eq!(rec.pid, "5");
    assert_eq!(rec.owner_id, "0");
    assert_eq!(rec.display_name, "kworker/0:1");
    assert_eq!(rec.tty, "0");
    assert_eq!(rec.cpu_time, "00:00:00");
    assert_eq!(rec.line(), "5 0 00:00:00 kworker/0:1");
}

#[test]
fn error_messages() {
    assert_eq!(PsError::SelfStatusUnreadable.message(), "cannot read the caller's status record");
    assert_eq!(PsError::NoOwnerIdentity.message(), "the caller's status record names no owner");
    assert_eq!(PsError::PatternRejected.message(), "the process entry pattern was rejected");
    assert_eq!(PsError::RegistryUnreadable.message(), "cannot list the process registry");
}
