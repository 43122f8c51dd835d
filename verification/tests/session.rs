use pelagos_tui::actions::ConfirmAction;
use pelagos_tui::cli::resolve_profile;
use pelagos_tui::command::{CommandReply, Platform};
use pelagos_tui::event_loop::{on_input, Input, InputAction, Job, Session};
use pelagos_tui::reading::Reading;
use pelagos_tui::subscription::{
    after_delivery, on_reader_event, subscribe_command, Delivery, Feed, FeedAction, ReaderEvent,
    Reconnector, SubConfig, SubscriptionStep,
};
use pelagos_tui::terminal::{
    after_homebrew, after_sibling, after_usr_local, after_which, choose_launcher,
    escape_applescript, launch_command, launch_failure, shell_command, shell_escape, which_command,
    Launcher, PathLookup,
};

fn key(pressed: bool, character: Option<char>, control: bool) -> Input {
    Input::Key { pressed, character, control }
}

#[test]
fn control_c_quits() {
    assert!(matches!(on_input(&key(true, Some('c'), true)), InputAction::Quit));
    assert!(matches!(on_input(&key(true, Some('c'), false)), InputAction::Forward));
    assert!(matches!(on_input(&key(true, Some('C'), true)), InputAction::Forward));
    assert!(matches!(on_input(&key(true, None, true)), InputAction::Forward));
    assert!(matches!(on_input(&key(false, Some('c'), true)), InputAction::Ignore));
    assert!(matches!(on_input(&Input::Other), InputAction::Ignore));
    let mut session = Session::new();
    assert!(session.input(&key(true, Some('q'), false)));
    assert!(!session.should_quit);
    assert!(!session.input(&key(true, Some('c'), true)));
    assert!(session.should_quit);
}

#[test]
fn pending_work_is_started_once_and_in_order() {
    let mut session = Session::new();
    let mut config = SubConfig::new("p");
    session.pending.action = Some((ConfirmAction::Remove, vec!["x".to_string()]));
    session.pending.run = Some("alpine".to_string());
    session.pending.image_inspect = Some("i".to_string());
    session.pending.image_rm = Some("r".to_string());
    session.pending.image_pull = Some("l".to_string());
    session.pending.image_ls = true;
    session.pending.inspect = Some("n".to_string());
    session.should_quit = true;
    let end = session.end_turn(&mut config, 15_000);
    assert!(end.over && !end.reconnects);
    assert_eq!(config.generation, 0);
    let shown: Vec<String> = end
        .jobs
        .iter()
        .map(|job| match job {
            Job::Inspect(n) => format!("inspect {}", n),
            Job::ImageLs => "ls".to_string(),
            Job::ImagePull(r) => format!("pull {}", r),
            Job::ImageRm(r) => format!("rm {}", r),
            Job::ImageInspect(r) => format!("image {}", r),
            Job::Run(i) => format!("run {}", i),
            Job::Action(action, targets) => {
                format!("{} {}", action.pelagos_cmd(), targets.join(","))
            }
        })
        .collect();
    assert_eq!(
        shown,
        vec!["inspect n", "ls", "pull l", "rm r", "image i", "run alpine", "rm x"]
    );
    assert_eq!(session.end_turn(&mut config, 0).jobs.len(), 0);
}

#[test]
fn silent_subscription_starts_over() {
    let mut session = Session::new();
    let mut config = SubConfig::new("p");
    let end = session.end_turn(&mut config, 15_001);
    assert!(end.reconnects && !end.over);
    assert_eq!(config.generation, 1);
    assert!(config.is_current(1) && !config.is_current(0));
    config.generation = u64::MAX;
    config.force_reconnect();
    assert_eq!(config.generation, 0);
    assert_eq!(config.profile, "p");
}

#[test]
fn waits_double_up_to_thirty_seconds() {
    let mut r = Reconnector::new();
    let mut waits = Vec::new();
    for _ in 0..7 {
        r.begin(0);
        waits.push(r.end(true, 0));
    }
    assert_eq!(waits, vec![1_000, 2_000, 4_000, 8_000, 16_000, 30_000, 30_000]);
}

#[test]
fn first_failed_start_is_followed_at_once() {
    let mut r = Reconnector::new();
    let mut waits = Vec::new();
    for _ in 0..8 {
        r.begin(0);
        waits.push(r.end(false, 0));
    }
    assert_eq!(waits, vec![0, 1_000, 2_000, 4_000, 8_000, 16_000, 30_000, 30_000]);
    r.begin(1);
    assert_eq!(r.end(false, 1), 0);
    r.begin(1);
    assert_eq!(r.end(true, 1), 1_000);
    r.begin(1);
    assert_eq!(r.end(false, 1), 2_000);
}

#[test]
fn forced_switch_is_immediate() {
    let mut r = Reconnector::new();
    for wait in [1_000, 2_000, 4_000] {
        r.begin(0);
        assert_eq!(r.end(true, 0), wait);
    }
    r.begin(0);
    assert_eq!(r.end(true, 1), 0);
    for wait in [1_000, 2_000] {
        r.begin(1);
        assert_eq!(r.end(true, 1), wait);
    }
    // The generation changes between two attempts.
    r.begin(2);
    assert_eq!(r.end(true, 2), 1_000);
}

#[test]
fn largest_generation_starts_like_any_other() {
    let mut r = Reconnector::new();
    r.begin(u64::MAX);
    assert_eq!(r.end(true, u64::MAX), 1_000);
    r.begin(u64::MAX);
    assert_eq!(r.end(true, 0), 0);
}

fn shown(action: FeedAction) -> String {
    match action {
        FeedAction::Connect { profile, generation } => format!("connect {} {}", profile, generation),
        FeedAction::Report => "report".to_string(),
        FeedAction::Wait(ms) => format!("wait {}", ms),
    }
}

#[test]
fn feed_reports_once_per_attempt() {
    let mut feed = Feed::new();
    let mut config = SubConfig::new("p");
    let mut seen = Vec::new();
    for _ in 0..7 {
        seen.push(shown(feed.next(&config, true)));
    }
    config.profile = "q".to_string();
    config.force_reconnect();
    for _ in 0..6 {
        seen.push(shown(feed.next(&config, true)));
    }
    assert_eq!(
        seen,
        vec![
            "connect p 0", "report", "wait 1000", "connect p 0", "report", "wait 2000",
            "connect p 0", "report", "wait 0", "connect q 1", "report", "wait 1000", "connect q 1",
        ]
    );
}

#[test]
fn feed_follows_a_failed_start_at_once() {
    let mut feed = Feed::new();
    let config = SubConfig::new("p");
    let seen: Vec<String> = (0..6).map(|_| shown(feed.next(&config, false))).collect();
    assert_eq!(
        seen,
        vec!["connect p 0", "report", "wait 0", "connect p 0", "report", "wait 1000"]
    );
}

fn read(turns: Vec<(u64, ReaderEvent, Delivery)>) -> Vec<String> {
    let mut config = SubConfig::new("p");
    let mut reading = Reading::new(0);
    let mut texts = Vec::new();
    for (generation, event, delivery) in turns {
        config.generation = generation;
        if !reading.goes_on(&config) {
            break;
        }
        if let Some(text) = reading.on_event(&event) {
            texts.push(text);
            reading.on_delivery(&delivery);
        }
    }
    texts
}

fn line(text: &str) -> ReaderEvent {
    ReaderEvent::Line(text.to_string())
}

#[test]
fn reading_hands_texts_on_until_the_end() {
    assert_eq!(
        read(vec![
            (0, line("a\n"), Delivery::Sent),
            (0, line("\n"), Delivery::Refused),
            (0, ReaderEvent::Silent, Delivery::Refused),
            (0, line("b\r\n"), Delivery::Unreadable),
            (0, line("c"), Delivery::Sent),
            (0, ReaderEvent::Ended, Delivery::Sent),
            (0, line("d"), Delivery::Sent),
        ]),
        vec!["a", "b", "c"]
    );
    assert_eq!(
        read(vec![
            (0, line("a"), Delivery::Refused),
            (0, line("b"), Delivery::Sent),
        ]),
        vec!["a"]
    );
    assert_eq!(
        read(vec![
            (0, line("a"), Delivery::Sent),
            (1, line("b"), Delivery::Sent),
            (0, line("c"), Delivery::Sent),
        ]),
        vec!["a"]
    );
    assert_eq!(
        read(vec![
            (0, ReaderEvent::Gone, Delivery::Sent),
            (0, line("a"), Delivery::Sent),
        ]),
        Vec::<String>::new()
    );
}

#[test]
fn ended_reading_stays_ended() {
    let config = SubConfig::new("p");
    let mut reading = Reading::new(0);
    assert!(reading.goes_on(&config));
    assert_eq!(reading.on_event(&ReaderEvent::Ended), None);
    assert!(!reading.goes_on(&config));
    assert_eq!(reading.on_event(&line("a")), None);
}

#[test]
fn profile_switch_starts_over() {
    let mut config = SubConfig::new("p");
    config.switch_profile("q");
    assert_eq!(config.profile, "q");
    assert_eq!(config.generation, 1);
}

fn delivered(line: &str) -> Option<String> {
    match on_reader_event(&ReaderEvent::Line(line.to_string())) {
        SubscriptionStep::Deliver(text) => Some(text),
        SubscriptionStep::Continue => None,
        SubscriptionStep::Stop => panic!("a line never ends the subscription"),
    }
}

#[test]
fn lines_are_delivered_without_their_ending() {
    assert_eq!(delivered("{}\n"), Some("{}".to_string()));
    assert_eq!(delivered("{}\r\n"), Some("{}".to_string()));
    assert_eq!(delivered("{} "), Some("{} ".to_string()));
    assert_eq!(delivered("\n"), None);
    assert_eq!(delivered("\r\n"), None);
    assert_eq!(delivered(""), None);
}

#[test]
fn ends_of_a_subscription() {
    assert!(matches!(on_reader_event(&ReaderEvent::Ended), SubscriptionStep::Stop));
    assert!(matches!(on_reader_event(&ReaderEvent::Gone), SubscriptionStep::Stop));
    assert!(matches!(on_reader_event(&ReaderEvent::Silent), SubscriptionStep::Continue));
    assert!(matches!(after_delivery(&Delivery::Sent), SubscriptionStep::Continue));
    assert!(matches!(after_delivery(&Delivery::Unreadable), SubscriptionStep::Continue));
    assert!(matches!(after_delivery(&Delivery::Refused), SubscriptionStep::Stop));
    assert_eq!(
        subscribe_command(Platform::MacOs, "p"),
        vec!["pelagos", "--profile", "p", "subscribe"]
    );
    assert_eq!(subscribe_command(Platform::Linux, "p"), vec!["pelagos", "subscribe"]);
}

#[test]
fn escaping() {
    assert_eq!(escape_applescript("a\\b\"c"), "a\\\\b\\\"c");
    assert_eq!(escape_applescript(""), "");
    assert_eq!(shell_escape("it's"), "'it'\\''s'");
    assert_eq!(shell_escape(""), "''");
}

#[test]
fn terminal_commands() {
    assert_eq!(
        shell_command(Platform::MacOs, "/b/pelagos", "my p", "-it alpine"),
        "/b/pelagos --profile 'my p' run -it alpine"
    );
    assert_eq!(
        shell_command(Platform::Linux, "pelagos", "p", "-it alpine"),
        "pelagos run -it alpine"
    );
    assert_eq!(
        launch_command(&Launcher::AppleTerminal, "a \"b\""),
        vec!["osascript", "-e", "tell application \"Terminal\" to do script \"a \\\"b\\\"\""]
    );
    assert_eq!(
        launch_command(&Launcher::ITerm, "a"),
        vec![
            "osascript",
            "-e",
            "tell application \"iTerm\" to create window with default profile command \"a\""
        ]
    );
    assert_eq!(
        launch_command(&Launcher::Program("kitty".to_string()), "a b"),
        vec!["kitty", "-e", "sh", "-c", "a b"]
    );
    assert_eq!(launch_failure("denied"), "terminal launch: denied");
}

fn launcher_name(pelagos_terminal: Option<&str>, term_program: Option<&str>) -> String {
    match choose_launcher(pelagos_terminal, term_program) {
        Launcher::AppleTerminal => "Terminal".to_string(),
        Launcher::ITerm => "iTerm".to_string(),
        Launcher::Program(name) => format!("program {}", name),
    }
}

#[test]
fn terminal_in_use_opens_the_window() {
    assert_eq!(launcher_name(Some("foot"), Some("iTerm.app")), "program foot");
    assert_eq!(launcher_name(None, Some("Apple_Terminal")), "Terminal");
    assert_eq!(launcher_name(None, Some("iTerm.app")), "iTerm");
    assert_eq!(launcher_name(None, Some("ghostty")), "program ghostty");
    assert_eq!(launcher_name(None, Some("WarpTerminal")), "Terminal");
    assert_eq!(launcher_name(None, Some("kitty")), "program kitty");
    assert_eq!(launcher_name(None, Some("alacritty")), "program alacritty");
    assert_eq!(launcher_name(None, Some("other")), "Terminal");
    assert_eq!(launcher_name(None, None), "Terminal");
}

fn found(at: PathLookup) -> Option<String> {
    match at {
        PathLookup::Found(path) => Some(path),
        _ => None,
    }
}

#[test]
fn binary_lookup_order() {
    assert_eq!(found(after_sibling(Some("/x/pelagos".to_string()))), Some("/x/pelagos".to_string()));
    assert!(matches!(after_sibling(None), PathLookup::Which));
    assert_eq!(which_command(), vec!["which", "pelagos"]);
    let hit = CommandReply::exited(true, "s".to_string(), b"/u/pelagos\n", b"");
    assert_eq!(found(after_which(&hit)), Some("/u/pelagos".to_string()));
    let blank = CommandReply::exited(true, "s".to_string(), b"\n", b"");
    assert!(matches!(after_which(&blank), PathLookup::Homebrew));
    let miss = CommandReply::exited(false, "s".to_string(), b"/u/pelagos", b"");
    assert!(matches!(after_which(&miss), PathLookup::Homebrew));
    assert_eq!(PathLookup::Homebrew.well_known_path(), Some("/opt/homebrew/bin/pelagos"));
    assert_eq!(PathLookup::UsrLocal.well_known_path(), Some("/usr/local/bin/pelagos"));
    assert_eq!(PathLookup::Which.well_known_path(), None);
    assert_eq!(found(after_homebrew(true)), Some("/opt/homebrew/bin/pelagos".to_string()));
    assert!(matches!(after_homebrew(false), PathLookup::UsrLocal));
    assert_eq!(found(after_usr_local(true)), Some("/usr/local/bin/pelagos".to_string()));
    assert_eq!(found(after_usr_local(false)), Some("pelagos".to_string()));
}

fn resolved(args: &[&str], env: Option<&str>) -> String {
    let args: Vec<String> = args.iter().map(|a| a.to_string()).collect();
    resolve_profile(&args, env)
}

#[test]
fn profile_resolution() {
    assert_eq!(resolved(&["tui", "--profile", "a"], Some("e")), "a");
    assert_eq!(resolved(&["tui", "x", "-p", "a", "--profile=b"], Some("e")), "a");
    assert_eq!(resolved(&["tui", "--profile=b"], Some("e")), "b");
    assert_eq!(resolved(&["tui", "--profile="], Some("e")), "");
    assert_eq!(resolved(&["tui", "--profile"], Some("e")), "e");
    assert_eq!(resolved(&["--profile", "a"], None), "default");
    assert_eq!(resolved(&["tui"], Some("e")), "e");
    assert_eq!(resolved(&["tui"], None), "default");
    assert_eq!(resolved(&[], None), "default");
}
