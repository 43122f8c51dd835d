use pelagos_tui::command::{CommandReply, Platform};
use pelagos_tui::run_args::{normalise_run_args, plan_run, run_command, run_failure, RunPlan};
use pelagos_tui::text::split_whitespace;

fn norm(input: &str) -> Vec<&str> {
    let tokens: Vec<&str> = input.split_whitespace().collect();
    assert_eq!(tokens, split_whitespace(input));
    normalise_run_args(&tokens)
}

#[test]
fn name_before_image_unchanged() {
    assert_eq!(
        norm("--name foo alpine sleep 30"),
        vec!["--name", "foo", "alpine", "sleep", "30"]
    );
}

#[test]
fn name_after_image_moved_to_front() {
    assert_eq!(
        norm("alpine --name foo sleep 30"),
        vec!["--name", "foo", "alpine", "sleep", "30"]
    );
}

#[test]
fn detach_flag_hoisted() {
    assert_eq!(
        norm("alpine -d --name foo sleep 30"),
        vec!["-d", "--name", "foo", "alpine", "sleep", "30"]
    );
}

#[test]
fn no_flags_passthrough() {
    assert_eq!(norm("alpine sleep 30"), vec!["alpine", "sleep", "30"]);
}

#[test]
fn empty_input() {
    assert_eq!(norm(""), Vec::<&str>::new());
}

#[test]
fn command_flags_stay_with_the_command() {
    assert_eq!(
        norm("alpine ls -l --name foo"),
        vec!["alpine", "ls", "-l", "--name", "foo"]
    );
}

#[test]
fn tokens_after_the_command_are_appended() {
    let mut expected = norm("alpine -d sh");
    expected.extend(["-c", "--name", "x"]);
    assert_eq!(norm("alpine -d sh -c --name x"), expected);
}

#[test]
fn every_value_flag_keeps_its_value() {
    let flags = [
        "--name", "--network", "--net", "--hostname", "--env", "-e", "--volume", "-v", "--mount",
        "--publish", "-p", "--memory", "--cpus", "--user", "-u", "--workdir", "-w", "--entrypoint",
        "--cap-add", "--cap-drop", "--label", "-l", "--dns", "--dns-search", "--dns-option",
    ];
    for flag in flags {
        assert_eq!(
            normalise_run_args(&["alpine", flag, "x", "sh"]),
            vec![flag, "x", "alpine", "sh"]
        );
    }
}

#[test]
fn other_flags_stand_alone() {
    let flags = [
        "--detach", "-d", "--rm", "--tty", "-t", "--interactive", "-i", "--privileged", "-it",
        "--env=FOO=bar", "-",
    ];
    for flag in flags {
        assert_eq!(
            normalise_run_args(&["alpine", flag, "x", "sh"]),
            vec![flag, "alpine", "x", "sh"]
        );
    }
}

#[test]
fn value_may_look_like_a_flag() {
    assert_eq!(
        norm("alpine --env -d sh"),
        vec!["--env", "-d", "alpine", "sh"]
    );
}

#[test]
fn value_missing_at_the_end() {
    assert_eq!(norm("alpine --name"), vec!["--name", "alpine"]);
    assert_eq!(norm("--name"), vec!["--name"]);
}

#[test]
fn normalising_twice_changes_nothing() {
    for input in [
        "alpine -d --name foo sleep 30",
        "alpine --name",
        "-e A=1 alpine -e B=2 sh -c true",
        "--rm",
        "",
    ] {
        let once = norm(input);
        assert_eq!(normalise_run_args(&once), once);
    }
}

#[test]
fn interactive_flags_ask_for_a_terminal() {
    for input in [
        "-i alpine",
        "alpine --interactive",
        "alpine -it sh",
        "-ti alpine sh",
        "alpine sh -i",
    ] {
        assert!(matches!(plan_run(input), RunPlan::Terminal), "{}", input);
    }
}

#[test]
fn other_runs_are_detached() {
    match plan_run("  alpine\t--name foo  sleep 30\n") {
        RunPlan::Detached(args) => {
            assert_eq!(args, vec!["--name", "foo", "alpine", "sleep", "30"]);
            assert_eq!(
                run_command(Platform::Linux, "p", &args),
                vec!["pelagos", "run", "--name", "foo", "alpine", "sleep", "30"]
            );
            assert_eq!(
                run_command(Platform::MacOs, "p", &args),
                vec![
                    "pelagos", "--profile", "p", "run", "--name", "foo", "alpine", "sleep", "30"
                ]
            );
        }
        RunPlan::Terminal => panic!("expected a detached run"),
    }
    match plan_run("-t alpine") {
        RunPlan::Detached(args) => assert_eq!(args, vec!["-t", "alpine"]),
        RunPlan::Terminal => panic!("expected a detached run"),
    }
}

#[test]
fn failed_run_is_reported() {
    let failed = CommandReply::exited(false, "exit status: 125".to_string(), b"", b" no image \n");
    assert_eq!(run_failure(&failed), Some("run: no image".to_string()));
    let silent = CommandReply::exited(false, "exit status: 1".to_string(), b"x", b" \n");
    assert_eq!(
        run_failure(&silent),
        Some("run failed (exit exit status: 1)".to_string())
    );
    let done = CommandReply::exited(true, "exit status: 0".to_string(), b"", b"warning");
    assert_eq!(run_failure(&done), None);
    let not_run = CommandReply::NotRun { error: "not found".to_string() };
    assert_eq!(run_failure(&not_run), Some("run: not found".to_string()));
}
