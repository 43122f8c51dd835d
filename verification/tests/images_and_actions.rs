use pelagos_tui::actions::{action_error, ActionBatch, ConfirmAction};
use pelagos_tui::command::{CommandReply, Platform};
use pelagos_tui::images::{
    after_pull, after_rm, image_inspect_command, image_inspect_result, image_ls_command,
    image_ls_listing, image_ls_result, image_pull_command, image_rm_command, ImageFollowUp,
};

fn reply(success: bool, stdout: &str, stderr: &str) -> CommandReply {
    CommandReply::exited(success, "status".to_string(), stdout.as_bytes(), stderr.as_bytes())
}

fn not_run() -> CommandReply {
    CommandReply::NotRun { error: "no such file".to_string() }
}

fn report(follow_up: ImageFollowUp) -> Option<String> {
    match follow_up {
        ImageFollowUp::Refresh => None,
        ImageFollowUp::Report(text) => Some(text),
    }
}

fn text(s: &str) -> Option<String> {
    Some(s.to_string())
}

#[test]
fn image_command_lines() {
    assert_eq!(
        image_ls_command(Platform::MacOs, "p"),
        vec!["pelagos", "--profile", "p", "image", "ls", "--json"]
    );
    assert_eq!(
        image_pull_command(Platform::Linux, "p", "alpine"),
        vec!["pelagos", "image", "pull", "alpine"]
    );
    assert_eq!(
        image_rm_command(Platform::Linux, "p", "alpine"),
        vec!["pelagos", "image", "rm", "alpine"]
    );
    assert_eq!(
        image_inspect_command(Platform::Linux, "p", "alpine"),
        vec!["pelagos", "image", "inspect", "alpine"]
    );
}

#[test]
fn image_listing() {
    let good = reply(true, " [] \n", "");
    assert_eq!(image_ls_listing(&good), Ok("[]".to_string()));
    assert_eq!(image_ls_result(&good, Ok(3)), Ok(3));
    assert_eq!(
        image_ls_result::<i32>(&good, Err("eof".to_string())),
        Err("parse error: eof".to_string())
    );
    let bad = reply(false, "[]", " down \n");
    assert_eq!(image_ls_listing(&bad), Err("down".to_string()));
    assert_eq!(image_ls_result(&bad, Ok(3)), Err("down".to_string()));
    assert_eq!(image_ls_result(&reply(false, "", ""), Ok(3)), Err(String::new()));
    assert_eq!(image_ls_result(&not_run(), Ok(3)), Err("no such file".to_string()));
}

#[test]
fn pull_and_removal_follow_up() {
    assert_eq!(report(after_pull(&reply(true, "", "noise"))), None);
    assert_eq!(report(after_pull(&reply(false, "", " denied "))), text("pull: denied"));
    assert_eq!(report(after_pull(&reply(false, "", ""))), text("pull failed (exit status)"));
    assert_eq!(report(after_pull(&not_run())), text("pull: no such file"));
    assert_eq!(report(after_rm(&reply(true, "", ""))), None);
    assert_eq!(report(after_rm(&reply(false, "", "in use"))), text("image rm: in use"));
    assert_eq!(report(after_rm(&reply(false, "", "\n"))), text("rm failed (exit status)"));
    assert_eq!(report(after_rm(&not_run())), text("image rm: no such file"));
}

#[test]
fn image_description() {
    assert_eq!(image_inspect_result(&reply(true, " {} ", "")), Ok("{}".to_string()));
    assert_eq!(
        image_inspect_result(&reply(false, "{}", " gone ")),
        Err("gone".to_string())
    );
    assert_eq!(
        image_inspect_result(&reply(false, "{}", "")),
        Err("inspect failed (exit status)".to_string())
    );
    assert_eq!(image_inspect_result(&not_run()), Err("no such file".to_string()));
}

#[test]
fn action_errors() {
    assert_eq!(action_error("rm", "a", &reply(true, "", "error: x")), None);
    assert_eq!(
        action_error("rm", "a", &reply(false, "", "error: no container named 'a'")),
        None
    );
    assert_eq!(
        action_error("rm", "a", &reply(false, "", "debug\n  error: busy \nError again\n")),
        text("rm a: error: busy")
    );
    assert_eq!(
        action_error("rm", "a", &reply(false, "", "debug\r\nAn Error occurred\r\n")),
        text("rm a: An Error occurred")
    );
    assert_eq!(
        action_error("stop", "a", &reply(false, "", " one\ntwo \n")),
        text("stop a: one\ntwo")
    );
    assert_eq!(action_error("stop", "a", &reply(false, "", " ")), text("stop a: exit status"));
    assert_eq!(action_error("stop", "a", &not_run()), text("stop a: no such file"));
}

#[test]
fn subcommands() {
    assert_eq!(ConfirmAction::Stop.pelagos_cmd(), "stop");
    assert_eq!(ConfirmAction::Restart.pelagos_cmd(), "restart");
    assert_eq!(ConfirmAction::Remove.pelagos_cmd(), "rm");
    assert_eq!(ConfirmAction::StopAndRemove.pelagos_cmd(), "rm");
}

#[test]
fn batch_runs_targets_in_order() {
    let targets = vec!["a".to_string(), "b".to_string(), "c".to_string()];
    let mut batch = ActionBatch::new(Platform::MacOs, "p", ConfirmAction::Restart, targets);
    assert_eq!(
        batch.next_command().unwrap(),
        vec!["pelagos", "--profile", "p", "restart", "a"]
    );
    batch.record(&reply(false, "", "error: first"));
    assert_eq!(
        batch.next_command().unwrap(),
        vec!["pelagos", "--profile", "p", "restart", "b"]
    );
    batch.record(&reply(true, "", ""));
    batch.record(&not_run());
    assert!(batch.next_command().is_none());
    assert_eq!(
        batch.status(),
        text("restart a: error: first; restart c: no such file")
    );
}

#[test]
fn batch_stops_before_it_removes() {
    let targets = vec!["a".to_string(), "b".to_string()];
    let mut batch = ActionBatch::new(Platform::Linux, "p", ConfirmAction::StopAndRemove, targets);
    let mut seen = Vec::new();
    while let Some(argv) = batch.next_command() {
        let stop = argv[1] == "stop";
        seen.push(argv.join(" "));
        assert!(!batch.resubscribe_due());
        batch.record(&reply(!stop, "", "error: not running"));
    }
    assert_eq!(
        seen,
        vec!["pelagos stop a", "pelagos rm a", "pelagos stop b", "pelagos rm b"]
    );
    assert_eq!(batch.status(), None);
    assert!(batch.resubscribe_due());
}

#[test]
fn only_removals_resubscribe() {
    for (action, expected) in [
        (ConfirmAction::Stop, false),
        (ConfirmAction::Restart, false),
        (ConfirmAction::Remove, true),
    ] {
        let mut batch = ActionBatch::new(Platform::Linux, "p", action, vec!["a".to_string()]);
        assert!(!batch.resubscribe_due());
        batch.record(&not_run());
        assert_eq!(batch.resubscribe_due(), expected);
    }
}

#[test]
fn batch_without_targets_is_done() {
    let mut batch = ActionBatch::new(Platform::Linux, "p", ConfirmAction::Stop, Vec::new());
    assert!(batch.next_command().is_none());
    batch.record(&not_run());
    assert_eq!(batch.status(), None);
}
