use shmon::kill::{killed_message, not_found_message, Kill, KillAction, KillEvent};
use shmon::launch::{launch_message, Launch, LaunchAction, LaunchEvent};
use shmon::session::{
    invocation, is_own_daemon, listed_process, log_file_name, parse_pid, pid_file_content, pid_file_name,
    pid_file_session, socket_file_name, Invocation, Listing, Subcommand,
};
use shmon::text::NumberError;
use shmon::utils::{pick_runtime_root, NoRuntimeDir, RuntimeRoot};

fn text(s: &str) -> Option<String> {
    Some(s.to_string())
}

#[test]
fn subcommands_come_first() {
    assert!(matches!(
        invocation(Some(Subcommand::List), text("a"), None, None),
        Invocation::List
    ));
    assert!(matches!(
        invocation(Some(Subcommand::Kill("b".to_string())), text("a"), None, None),
        Invocation::Kill(name) if name == "b"
    ));
    assert!(matches!(
        invocation(None, None, text("sh"), text("zsh")),
        Invocation::Usage
    ));
}

#[test]
fn shells_are_picked_in_order() {
    let cases = [
        (text("vim"), text("/bin/zsh"), "vim"),
        (None, text("/bin/zsh"), "/bin/zsh"),
        (None, None, "/bin/bash"),
    ];
    for (shell, env_shell, expected) in cases {
        match invocation(None, text("work"), shell, env_shell) {
            Invocation::StartOrAttach { session, shell } => {
                assert_eq!(session, "work");
                assert_eq!(shell, expected);
            }
            _ => panic!("expected a session"),
        }
    }
}

#[test]
fn files_carry_the_session_name() {
    assert_eq!(socket_file_name("work"), "work.sock");
    assert_eq!(pid_file_name("work"), "work.pid");
    assert_eq!(log_file_name("work"), "work.log");
    assert_ne!(pid_file_name("a"), pid_file_name("b"));
}

#[test]
fn sessions_are_found_by_their_pid_file() {
    for session in ["work", "a.b", ".", "\u{fc}ber", "x.pid"] {
        assert_eq!(pid_file_session(&pid_file_name(session)), text(session));
        assert_eq!(pid_file_session(&socket_file_name(session)), None);
        assert_eq!(pid_file_session(&log_file_name(session)), None);
    }
    assert_eq!(pid_file_session(".pid"), None);
    assert_eq!(pid_file_session("pid"), None);
    assert_eq!(pid_file_session("workpid"), None);
    assert_eq!(pid_file_session("work.pid.bak"), None);
    assert_eq!(pid_file_session(""), None);
}

#[test]
fn process_numbers_read_back() {
    for pid in [0u32, 1, 4711, i32::MAX as u32] {
        assert_eq!(pid_file_content(pid), pid.to_string());
        assert_eq!(parse_pid(&pid_file_content(pid)), Ok(pid as i32));
    }
    assert_eq!(
        parse_pid(&pid_file_content(u32::MAX)),
        Err(NumberError::TooLarge)
    );
}

#[test]
fn daemons_are_found_by_what_they_wrote() {
    assert_eq!(
        listed_process(&pid_file_name("work"), Some(&pid_file_content(4711))),
        Some(("work".to_string(), 4711))
    );
    assert_eq!(
        listed_process("a.b.pid", Some(" -7\n")),
        Some(("a.b".to_string(), -7))
    );
    assert_eq!(listed_process("work.pid", None), None);
    assert_eq!(listed_process("work.pid", Some("")), None);
    assert_eq!(listed_process("work.pid", Some("12x")), None);
    assert_eq!(listed_process("work.pid", Some("2147483648")), None);
    assert_eq!(listed_process("work.sock", Some("12")), None);
    assert_eq!(listed_process(".pid", Some("12")), None);
}

#[test]
fn own_daemons_run_the_same_program() {
    let shmon = Some(b"shmon".to_vec());
    let other = Some(b"bash".to_vec());
    assert!(is_own_daemon(true, Some(true), &shmon, &shmon));
    assert!(is_own_daemon(true, Some(true), &None, &None));
    assert!(is_own_daemon(true, Some(false), &shmon, &Some(b"shmon".to_vec())));
    assert!(!is_own_daemon(true, Some(false), &shmon, &other));
    assert!(!is_own_daemon(true, Some(false), &shmon, &Some(b"shmoo".to_vec())));
    assert!(!is_own_daemon(true, Some(false), &None, &None));
    assert!(!is_own_daemon(true, None, &shmon, &shmon));
    assert!(!is_own_daemon(false, Some(true), &shmon, &shmon));
}

#[test]
fn listing_shows_live_sessions() {
    let mut listing = Listing::new();
    assert_eq!(listing.closing(), text("  (none)"));
    assert_eq!(listing.session("dead", 12, false), None);
    assert_eq!(listing.closing(), text("  (none)"));
    assert_eq!(listing.session("work", 42, true), text("  work (PID 42)"));
    assert_eq!(listing.session("dead", 13, false), None);
    assert_eq!(listing.closing(), None);
}

#[test]
fn running_session_is_attached_to() {
    let mut launch = Launch::new();
    assert_eq!(launch.step(LaunchEvent::Begin), LaunchAction::ReadPidFile);
    assert_eq!(
        launch.step(LaunchEvent::PidFile(text("77\n"))),
        LaunchAction::CheckProcess(77)
    );
    assert_eq!(launch.step(LaunchEvent::Process(true)), LaunchAction::Attach);
    assert_eq!(
        launch.step(LaunchEvent::Socket(true)),
        LaunchAction::Unexpected
    );
}

#[test]
fn dead_session_is_cleaned_up_and_started() {
    let mut launch = Launch::new();
    launch.step(LaunchEvent::Begin);
    launch.step(LaunchEvent::PidFile(text("77")));
    assert_eq!(
        launch.step(LaunchEvent::Process(false)),
        LaunchAction::CheckSocket
    );
    assert_eq!(
        launch.step(LaunchEvent::Socket(true)),
        LaunchAction::RemoveStaleFiles
    );
    assert_eq!(
        launch.step(LaunchEvent::StaleFilesRemoved),
        LaunchAction::StartDaemon
    );
    assert_eq!(
        launch.step(LaunchEvent::DaemonStarted),
        LaunchAction::CheckSocket
    );
    assert_eq!(
        launch.step(LaunchEvent::Socket(false)),
        LaunchAction::Sleep(50)
    );
    assert_eq!(launch.step(LaunchEvent::Slept), LaunchAction::CheckSocket);
    assert_eq!(launch.step(LaunchEvent::Socket(true)), LaunchAction::Attach);
}

#[test]
fn new_session_waits_for_its_socket_twenty_times() {
    for content in [None, text("no number"), text("")] {
        let mut launch = Launch::new();
        launch.step(LaunchEvent::Begin);
        assert_eq!(
            launch.step(LaunchEvent::PidFile(content)),
            LaunchAction::CheckSocket
        );
        assert_eq!(
            launch.step(LaunchEvent::Socket(false)),
            LaunchAction::StartDaemon
        );
        let mut looks = 0;
        let mut pause = 0;
        let mut action = launch.step(LaunchEvent::DaemonStarted);
        while action != LaunchAction::Attach {
            action = match action {
                LaunchAction::CheckSocket => {
                    looks += 1;
                    launch.step(LaunchEvent::Socket(false))
                }
                LaunchAction::Sleep(pause_ms) => {
                    pause += pause_ms;
                    launch.step(LaunchEvent::Slept)
                }
                other => panic!("unexpected {:?}", other),
            };
        }
        assert_eq!(looks, 20);
        assert_eq!(pause, 1000);
    }
}

#[test]
fn launch_messages() {
    assert_eq!(
        launch_message(true, "work", "/bin/sh"),
        "Starting new session: work with shell: /bin/sh"
    );
    assert_eq!(
        launch_message(false, "work", "/bin/sh"),
        "Attaching to session: work"
    );
}

#[test]
fn unknown_session_is_not_killed() {
    let mut kill = Kill::new();
    assert_eq!(
        kill.step(KillEvent::PidFileExists(false)),
        KillAction::NotFound
    );
    assert_eq!(kill.step(KillEvent::Terminated), KillAction::Unexpected);
    assert_eq!(
        not_found_message("work"),
        "Session 'work' not found (no pid file)."
    );
}

#[test]
fn bad_process_number_kills_nothing() {
    let mut kill = Kill::new();
    assert_eq!(
        kill.step(KillEvent::PidFileExists(true)),
        KillAction::ReadPidFile
    );
    assert_eq!(
        kill.step(KillEvent::PidFile("12a".to_string())),
        KillAction::InvalidPid(NumberError::InvalidDigit)
    );
    assert_eq!(kill.step(KillEvent::Slept), KillAction::Unexpected);
}

#[test]
fn killed_session_is_cleaned_up_once_gone() {
    let mut kill = Kill::new();
    kill.step(KillEvent::PidFileExists(true));
    assert_eq!(
        kill.step(KillEvent::PidFile(" 31\n".to_string())),
        KillAction::Terminate(31)
    );
    assert_eq!(kill.step(KillEvent::Terminated), KillAction::Sleep(100));
    assert_eq!(kill.step(KillEvent::Slept), KillAction::CheckProcess(31));
    assert_eq!(kill.step(KillEvent::Process(true)), KillAction::Sleep(100));
    assert_eq!(kill.step(KillEvent::Slept), KillAction::CheckProcess(31));
    assert_eq!(kill.step(KillEvent::Process(false)), KillAction::CleanUp);
    assert_eq!(killed_message("work"), "Killed session: work");
}

#[test]
fn killing_waits_two_seconds_at_most() {
    let mut kill = Kill::new();
    kill.step(KillEvent::PidFileExists(true));
    kill.step(KillEvent::PidFile("31".to_string()));
    let mut pause = 0;
    let mut looks = 0;
    let mut action = kill.step(KillEvent::Terminated);
    while action != KillAction::CleanUp {
        action = match action {
            KillAction::Sleep(pause_ms) => {
                pause += pause_ms;
                kill.step(KillEvent::Slept)
            }
            KillAction::CheckProcess(31) => {
                looks += 1;
                kill.step(KillEvent::Process(true))
            }
            other => panic!("unexpected {:?}", other),
        };
    }
    assert_eq!(pause, 2000);
    assert_eq!(looks, 20);
}

#[test]
fn runtime_roots_are_picked_in_order() {
    let yes = Some(true);
    let no = Some(false);
    assert_eq!(pick_runtime_root(yes, yes, yes), Ok(RuntimeRoot::Runtime));
    assert_eq!(pick_runtime_root(None, yes, yes), Ok(RuntimeRoot::Cache));
    assert_eq!(pick_runtime_root(no, yes, yes), Ok(RuntimeRoot::Cache));
    assert_eq!(pick_runtime_root(no, None, yes), Ok(RuntimeRoot::Temp));
    assert_eq!(pick_runtime_root(None, no, no), Err(NoRuntimeDir));
    assert_eq!(
        NoRuntimeDir.message(),
        "Could not determine runtime directory (XDG_RUNTIME_DIR or /tmp)"
    );
}

#[test]
fn files_stay_until_the_process_was_told() {
    let mut kill = Kill::new();
    kill.step(KillEvent::PidFileExists(true));
    assert_eq!(
        kill.step(KillEvent::PidFile("31".to_string())),
        KillAction::Terminate(31)
    );
    assert_eq!(kill.step(KillEvent::Process(false)), KillAction::Unexpected);
    assert_eq!(
        kill.step(KillEvent::PidFile("32".to_string())),
        KillAction::Unexpected
    );
    assert_eq!(kill.step(KillEvent::Slept), KillAction::Unexpected);
    assert_eq!(kill.step(KillEvent::Terminated), KillAction::Sleep(100));
    assert_eq!(kill.step(KillEvent::Slept), KillAction::CheckProcess(31));
    assert_eq!(kill.step(KillEvent::Process(false)), KillAction::CleanUp);
}

#[test]
fn launching_attaches_after_the_longest_way() {
    let mut launch = Launch::new();
    let mut event = LaunchEvent::Begin;
    let mut events = 0;
    let mut stale = true;
    loop {
        events += 1;
        event = match launch.step(event) {
            LaunchAction::ReadPidFile => LaunchEvent::PidFile(text("77")),
            LaunchAction::CheckProcess(_) => LaunchEvent::Process(false),
            LaunchAction::CheckSocket => {
                let exists = stale;
                stale = false;
                LaunchEvent::Socket(exists)
            }
            LaunchAction::RemoveStaleFiles => LaunchEvent::StaleFilesRemoved,
            LaunchAction::StartDaemon => LaunchEvent::DaemonStarted,
            LaunchAction::Sleep(_) => LaunchEvent::Slept,
            LaunchAction::Attach => break,
            LaunchAction::Unexpected => panic!("every event was in turn"),
        };
    }
    assert_eq!(events, 46);
}

#[test]
fn killing_cleans_up_after_the_longest_way() {
    let mut kill = Kill::new();
    let mut event = KillEvent::PidFileExists(true);
    let mut events = 0;
    loop {
        events += 1;
        event = match kill.step(event) {
            KillAction::ReadPidFile => KillEvent::PidFile("31".to_string()),
            KillAction::Terminate(_) => KillEvent::Terminated,
            KillAction::Sleep(_) => KillEvent::Slept,
            KillAction::CheckProcess(_) => KillEvent::Process(true),
            KillAction::CleanUp => break,
            _ => panic!("every event was in turn"),
        };
    }
    assert_eq!(events, 43);
}
