use pelagos_tui::command::{pelagos_cmd, CommandReply, Platform};
use pelagos_tui::runner::{
    find_container, inspect_command, inspect_listing, Container, LinuxRunner, MacOsRunner,
    ProfileEntry, Runner, SpawnConfigView,
};
use std::collections::HashMap;

fn container(name: &str, pid: i32) -> Container {
    Container {
        name: name.to_string(),
        rootfs: "/r".to_string(),
        status: "running".to_string(),
        pid,
        started_at: "now".to_string(),
        exit_code: None,
        command: Vec::new(),
        ports: vec!["8080:80".to_string()],
        bridge_ip: None,
        network_ips: HashMap::new(),
        labels: HashMap::new(),
        stdout_log: None,
        stderr_log: None,
        spawn_config: Some(SpawnConfigView::default()),
    }
}

fn reply(success: bool, stdout: &str, stderr: &str) -> CommandReply {
    CommandReply::exited(success, "status".to_string(), stdout.as_bytes(), stderr.as_bytes())
}

fn not_run() -> CommandReply {
    CommandReply::NotRun { error: "no such file".to_string() }
}

fn entry(is_dir: bool, name: Option<&str>) -> ProfileEntry {
    ProfileEntry { is_dir, name: name.map(|n| n.to_string()) }
}

#[test]
fn profile_is_passed_on_macos_only() {
    assert_eq!(pelagos_cmd(Platform::MacOs, "p"), vec!["pelagos", "--profile", "p"]);
    assert_eq!(pelagos_cmd(Platform::Linux, "p"), vec!["pelagos"]);
    let mac = MacOsRunner::new("p");
    assert_eq!(mac.profile, "p");
    assert_eq!(mac.ps_command(false), vec!["pelagos", "--profile", "p", "ps", "--json"]);
    assert_eq!(
        mac.ps_command(true),
        vec!["pelagos", "--profile", "p", "ps", "--json", "--all"]
    );
    let linux = LinuxRunner::new("p");
    assert_eq!(linux.profile, "p");
    assert_eq!(linux.ps_command(false), vec!["pelagos", "ps", "--json"]);
    assert_eq!(linux.ps_command(true), vec!["pelagos", "ps", "--json", "--all"]);
    assert_eq!(
        inspect_command(Platform::Linux, "p"),
        vec!["pelagos", "ps", "--json", "--all"]
    );
}

fn check_ps<R: Runner>(runner: &R) {
    let full = reply(true, " [1]\n", "");
    assert_eq!(runner.ps_listing(&full), Some("[1]".to_string()));
    let list = runner.ps(&full, Some(vec![container("a", 7)])).unwrap();
    assert_eq!(list.len(), 1);
    assert_eq!(list[0].pid, 7);
    assert_eq!(runner.ps(&full, None).unwrap().len(), 0);
    for empty in [reply(true, " \n", ""), reply(false, "[1]", "down")] {
        assert_eq!(runner.ps_listing(&empty), None);
        assert_eq!(runner.ps(&empty, Some(vec![container("a", 7)])).unwrap().len(), 0);
    }
    assert_eq!(runner.ps_listing(&not_run()), None);
    assert_eq!(
        runner.ps(&not_run(), None).err(),
        Some("no such file".to_string())
    );
}

#[test]
fn failed_listing_is_empty() {
    check_ps(&MacOsRunner::new("p"));
    check_ps(&LinuxRunner::new("p"));
}

#[test]
fn output_that_is_not_utf8_is_read() {
    let broken = CommandReply::exited(true, "s".to_string(), b" a\xffb ", b"");
    assert_eq!(inspect_listing(&broken), Some("a\u{fffd}b".to_string()));
}

#[test]
fn runtime_status() {
    let mac = MacOsRunner::new("p");
    assert_eq!(
        mac.vm_status_command().unwrap(),
        vec!["pelagos", "--profile", "p", "vm", "status"]
    );
    assert!(mac.vm_status(Some(&reply(true, "", ""))));
    assert!(!mac.vm_status(Some(&reply(false, "", ""))));
    assert!(!mac.vm_status(Some(&not_run())));
    assert!(!mac.vm_status(None));
    let linux = LinuxRunner::new("p");
    assert!(linux.vm_status_command().is_none());
    assert!(linux.vm_status(None));
    assert!(linux.vm_status(Some(&not_run())));
}

#[test]
fn profiles_are_sorted_with_default_once() {
    let entries = vec![
        entry(true, Some("work")),
        entry(true, Some("default")),
        entry(false, Some("notes.txt")),
        entry(true, None),
        entry(true, Some("Zoo")),
        entry(true, Some("alpha")),
    ];
    let expected = vec!["Zoo", "alpha", "default", "work"];
    assert_eq!(MacOsRunner::new("p").profiles(Some(&entries)), expected);
    assert_eq!(LinuxRunner::new("p").profiles(Some(&entries)), expected);
    assert_eq!(LinuxRunner::new("p").profiles(None), vec!["default"]);
    assert_eq!(LinuxRunner::new("p").profiles(Some(&Vec::new())), vec!["default"]);
}

#[test]
fn first_container_of_a_name_is_found() {
    let list = vec![container("a", 1), container("b", 2), container("b", 3)];
    assert_eq!(find_container(list.clone(), "b").unwrap().pid, 2);
    assert!(find_container(list, "c").is_none());
    assert!(find_container(Vec::new(), "a").is_none());
}

#[test]
fn inspect_reads_successful_replies() {
    assert_eq!(inspect_listing(&reply(true, " [] ", "")), Some("[]".to_string()));
    assert_eq!(inspect_listing(&reply(true, "", "")), Some(String::new()));
    assert_eq!(inspect_listing(&reply(false, "[]", "")), None);
    assert_eq!(inspect_listing(&not_run()), None);
}

#[test]
fn spawn_configuration_defaults_to_nothing() {
    let v = SpawnConfigView::default();
    assert!(v.env.is_empty() && v.bind.is_empty() && v.bind_ro.is_empty() && v.volume.is_empty());
    assert!(v.working_dir.is_none() && v.hostname.is_none() && v.user.is_none());
    assert!(!v.read_only);
}
