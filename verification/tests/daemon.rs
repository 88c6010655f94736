use bytes::{Bytes, BytesMut};
use shmon::client::{
    display, keeps_sending, resize_packet, stdin_packet, ConnectRetry, Display, Received,
};
use shmon::protocol::{ExitStatus, Packet, PacketCodec};
use shmon::server::backlog::Backlog;
use shmon::server::daemon::{
    cleanup_step, feed_client, forward, reports_client_error, Action, Cause, CleanupStep,
    CommandEvent, Daemon, Event, FeedAction, FeedEvent, ForwardAction, TaskEnd, MAX_CLIENTS,
};
use shmon::server::pty::{
    after_read, checked_signal, child_signal, shell_argv, term_to_set, InvalidSignal, IoOutcome,
    ReadStep, WriteProgress, WriteStep,
};
use shmon::server::reader::{
    exit_status, record, Reader, ReaderAction, ReaderEvent, TerminalRead, WaitOutcome,
};

#[test]
fn daemon_serves_eight_clients() {
    assert_eq!(MAX_CLIENTS, 8);
    let mut daemon = Daemon::new();
    for served in 1..=8 {
        assert!(matches!(daemon.step(Event::ClientArrived), Action::ServeClient));
        assert_eq!(daemon.clients(), served);
    }
    assert!(matches!(daemon.step(Event::ClientArrived), Action::RefuseClient));
    assert_eq!(daemon.clients(), 8);
    assert!(matches!(
        daemon.step(Event::ClientEnded(TaskEnd::Completed)),
        Action::Wait
    ));
    assert!(matches!(daemon.step(Event::ClientArrived), Action::ServeClient));
    assert!(daemon.is_running());
}

#[test]
fn commands_act_on_the_terminal() {
    let mut daemon = Daemon::new();
    let data = Bytes::from_static(b"ls\n");
    assert!(matches!(
        daemon.step(Event::Command(Packet::Data(data.clone()))),
        Action::WriteTerminal(d) if d == data
    ));
    assert!(matches!(
        daemon.step(Event::Command(Packet::Resize(80, 24))),
        Action::ResizeTerminal(80, 24)
    ));
    assert!(matches!(
        daemon.step(Event::Command(Packet::Signal(2))),
        Action::SignalShell(2)
    ));
    assert!(matches!(
        daemon.step(Event::Command(Packet::Exit(ExitStatus::from_code(0)))),
        Action::ReportUnexpectedExit
    ));
    assert!(matches!(daemon.step(Event::AcceptFailed), Action::ReportAcceptError));
    assert!(daemon.is_running());
}

#[test]
fn signals_and_the_shell_stop_the_daemon() {
    let mut daemon = Daemon::new();
    assert!(matches!(daemon.step(Event::Terminate), Action::ShutDown(Cause::Terminate)));
    assert!(!daemon.is_running());
    let mut daemon = Daemon::new();
    assert!(matches!(daemon.step(Event::Interrupt), Action::ShutDown(Cause::Interrupt)));
    assert!(!daemon.is_running());
    for (end, cause) in [
        (TaskEnd::Completed, Cause::ShellEnded),
        (TaskEnd::Cancelled, Cause::ShellEnded),
        (TaskEnd::Panicked, Cause::ReaderPanicked),
    ] {
        let mut daemon = Daemon::new();
        assert!(matches!(
            daemon.step(Event::ShellEnded(end)),
            Action::ShutDown(c) if c == cause
        ));
        assert!(!daemon.is_running());
    }
}

#[test]
fn client_panics_are_reported() {
    let mut daemon = Daemon::new();
    daemon.step(Event::ClientArrived);
    assert!(matches!(
        daemon.step(Event::ClientEnded(TaskEnd::Panicked)),
        Action::ReportClientPanic
    ));
    assert!(matches!(
        daemon.step(Event::ClientEnded(TaskEnd::Cancelled)),
        Action::Wait
    ));
    assert_eq!(daemon.clients(), 0);
}

#[test]
fn cleanup_lets_clients_read_first() {
    let mut steps = Vec::new();
    while let Some(step) = cleanup_step(steps.len()) {
        steps.push(step);
    }
    assert_eq!(
        steps,
        vec![
            CleanupStep::Pause(300),
            CleanupStep::StopReader,
            CleanupStep::StopClients,
            CleanupStep::Pause(100),
            CleanupStep::RemoveSocket,
            CleanupStep::RemovePidFile,
            CleanupStep::KillShell,
        ]
    );
}

fn output(data: &[u8]) -> ReaderEvent {
    ReaderEvent::Read(TerminalRead::Output(data.to_vec()))
}

#[test]
fn output_goes_to_backlog_and_clients() {
    let mut reader = Reader::new();
    let mut backlog = Backlog::with_limit(10);
    for chunk in [b"hello", b"world", b"again"] {
        match reader.step(output(chunk)) {
            ReaderAction::Broadcast(packet) => {
                record(&mut backlog, &packet);
                assert!(matches!(packet, Packet::Data(d) if &d[..] == chunk));
            }
            _ => panic!("expected a broadcast"),
        }
    }
    record(&mut backlog, &Packet::Resize(80, 24));
    record(&mut backlog, &Packet::Exit(ExitStatus::from_code(0)));
    let items: Vec<_> = backlog.iter().cloned().collect();
    assert_eq!(
        items,
        vec![Bytes::from_static(b"world"), Bytes::from_static(b"again")]
    );
}

#[test]
fn exit_is_broadcast_once_after_all_output() {
    let ends = [
        ReaderEvent::Read(TerminalRead::Output(Vec::new())),
        ReaderEvent::Read(TerminalRead::Failed),
    ];
    for end in ends {
        let failed = matches!(end, ReaderEvent::Read(TerminalRead::Failed));
        let mut reader = Reader::new();
        assert!(matches!(
            reader.step(ReaderEvent::Waited(WaitOutcome::Exited(0))),
            ReaderAction::Unexpected
        ));
        assert!(matches!(
            reader.step(output(b"bye")),
            ReaderAction::Broadcast(Packet::Data(d)) if &d[..] == b"bye"
        ));
        match reader.step(end) {
            ReaderAction::EndOfOutput => assert!(!failed),
            ReaderAction::ReportReadError => assert!(failed),
            _ => panic!("expected the end of the output"),
        }
        assert!(matches!(reader.step(output(b"late")), ReaderAction::Unexpected));
        assert!(matches!(
            reader.step(ReaderEvent::Waited(WaitOutcome::Signaled(9))),
            ReaderAction::BroadcastLast(Packet::Exit(s), 50) if s == ExitStatus::from_signal(9)
        ));
        assert!(matches!(
            reader.step(ReaderEvent::Waited(WaitOutcome::Signaled(9))),
            ReaderAction::Unexpected
        ));
        assert!(matches!(reader.step(output(b"late")), ReaderAction::Unexpected));
    }
}

#[test]
fn late_clients_are_shown_the_newest_output() {
    let mut reader = Reader::new();
    let mut backlog = Backlog::with_limit(8);
    for chunk in ["one ", "two ", "three"] {
        match reader.step(output(chunk.as_bytes())) {
            ReaderAction::Broadcast(packet) => record(&mut backlog, &packet),
            _ => panic!("expected a broadcast"),
        }
    }
    let history = backlog.history();
    assert_eq!(history.len(), 1);
    assert!(matches!(&history[0], Packet::Data(d) if &d[..] == b"three"));
}

#[test]
fn typing_reaches_the_terminal() {
    let mut codec = PacketCodec;
    let mut wire = BytesMut::new();
    for keys in [&b"ls"[..], b"\n", b"exit\n"] {
        let packet = stdin_packet(Some(keys.len()), keys).unwrap();
        codec.encode(packet, &mut wire).unwrap();
    }
    let mut daemon = Daemon::new();
    let mut written = Vec::new();
    while let Some(packet) = codec.decode(&mut wire).unwrap() {
        match forward(CommandEvent::Packet(packet)) {
            ForwardAction::Forward(command) => match daemon.step(Event::Command(command)) {
                Action::WriteTerminal(data) => written.extend_from_slice(&data),
                _ => panic!("expected something to write"),
            },
            ForwardAction::Stop => panic!("expected a command"),
        }
    }
    assert_eq!(&written[..], b"ls\nexit\n");
}

#[test]
fn exit_status_follows_the_wait() {
    assert_eq!(exit_status(WaitOutcome::Exited(3)), ExitStatus::from_code(3));
    assert_eq!(exit_status(WaitOutcome::Signaled(9)), ExitStatus::from_signal(9));
    assert_eq!(
        exit_status(WaitOutcome::Unknown),
        ExitStatus { code: None, signal: None }
    );
}

#[test]
fn clients_are_fed_output_and_the_exit() {
    assert!(matches!(
        feed_client(FeedEvent::Broadcast(Packet::Data(Bytes::from_static(b"x")))),
        FeedAction::Send(Packet::Data(d)) if &d[..] == b"x"
    ));
    assert!(matches!(
        feed_client(FeedEvent::Broadcast(Packet::Exit(ExitStatus::from_code(1)))),
        FeedAction::SendLast(Packet::Exit(s)) if s == ExitStatus::from_code(1)
    ));
    assert!(matches!(
        feed_client(FeedEvent::Broadcast(Packet::Resize(1, 1))),
        FeedAction::Skip
    ));
    assert!(matches!(
        feed_client(FeedEvent::Broadcast(Packet::Signal(1))),
        FeedAction::Skip
    ));
    assert!(matches!(feed_client(FeedEvent::Lagged(5)), FeedAction::ReportLag(5)));
    assert!(matches!(feed_client(FeedEvent::Closed), FeedAction::Stop));
}

#[test]
fn commands_are_forwarded_until_something_fails() {
    let sent = [
        Packet::Data(Bytes::from_static(b"ls")),
        Packet::Resize(80, 24),
        Packet::Signal(2),
        Packet::Exit(ExitStatus::from_code(1)),
    ];
    for packet in sent {
        let expected = format!("{:?}", packet);
        match forward(CommandEvent::Packet(packet)) {
            ForwardAction::Forward(p) => assert_eq!(format!("{:?}", p), expected),
            ForwardAction::Stop => panic!("expected a packet"),
        }
    }
    assert!(matches!(forward(CommandEvent::Failed), ForwardAction::Stop));
    assert!(matches!(forward(CommandEvent::Closed), ForwardAction::Stop));
    assert!(matches!(forward(CommandEvent::NotTaken), ForwardAction::Stop));
}

#[test]
fn broken_pipes_are_not_reported() {
    assert!(!reports_client_error(Some(true)));
    assert!(reports_client_error(Some(false)));
    assert!(reports_client_error(None));
}

#[test]
fn client_shows_a_whole_session() {
    let mut codec = PacketCodec;
    let mut wire = BytesMut::new();
    for chunk in ["$ ", "exit\r\n"] {
        codec
            .encode(Packet::Data(Bytes::from(chunk)), &mut wire)
            .unwrap();
    }
    codec
        .encode(Packet::Exit(ExitStatus::from_code(0)), &mut wire)
        .unwrap();
    let mut shown = Vec::new();
    while let Some(packet) = codec.decode(&mut wire).unwrap() {
        match display(Received::Packet(packet)) {
            Display::Show(data) => shown.extend_from_slice(&data),
            Display::ShowLast(text) => shown.extend_from_slice(text.as_bytes()),
            _ => panic!("expected something to show"),
        }
    }
    assert_eq!(
        String::from_utf8(shown).unwrap(),
        "$ exit\r\n[shell exited with code 0]\r\n"
    );
}

#[test]
fn client_ignores_and_stops() {
    assert!(matches!(
        display(Received::Packet(Packet::Resize(1, 2))),
        Display::Ignore
    ));
    assert!(matches!(
        display(Received::Packet(Packet::Signal(1))),
        Display::Ignore
    ));
    assert!(matches!(display(Received::Failed), Display::Stop));
    assert!(matches!(display(Received::Closed), Display::Stop));
}

#[test]
fn keyboard_input_becomes_data() {
    let buffer = [1u8, 2, 3, 4];
    match stdin_packet(Some(3), &buffer) {
        Some(Packet::Data(d)) => assert_eq!(&d[..], &[1, 2, 3]),
        _ => panic!("expected Data"),
    }
    assert!(stdin_packet(Some(0), &buffer).is_none());
    assert!(stdin_packet(None, &buffer).is_none());
    assert!(matches!(
        resize_packet(Some((80, 24))),
        Some(Packet::Resize(80, 24))
    ));
    assert!(resize_packet(None).is_none());
    assert!(keeps_sending(Some(true)));
    assert!(!keeps_sending(Some(false)));
    assert!(!keeps_sending(None));
}

#[test]
fn connecting_is_tried_twelve_times() {
    let mut retry = ConnectRetry::new();
    for _ in 0..11 {
        assert_eq!(retry.after_failure(), Some(100));
    }
    assert_eq!(retry.after_failure(), None);
    assert_eq!(retry.after_failure(), None);
}

#[test]
fn shell_commands_are_split() {
    assert_eq!(shell_argv("/bin/bash", None), vec!["/bin/bash"]);
    assert_eq!(shell_argv("vim", Some("/bin/zsh".to_string())), vec!["vim"]);
    assert_eq!(shell_argv("  vim  -n a.txt ", None), vec!["vim", "-n", "a.txt"]);
    assert_eq!(shell_argv(" ", Some("/bin/zsh".to_string())), vec!["/bin/zsh"]);
    assert_eq!(shell_argv("", None), vec!["/bin/sh"]);
}

#[test]
fn terminal_type_has_a_default() {
    assert_eq!(term_to_set(true), None);
    assert_eq!(term_to_set(false), Some("xterm-256color"));
}

#[test]
fn reads_keep_the_front_of_the_buffer() {
    assert!(matches!(
        after_read(vec![1, 2, 3], IoOutcome::Moved(2)),
        ReadStep::Done(d) if d == [1, 2]
    ));
    assert!(matches!(
        after_read(vec![1, 2, 3], IoOutcome::Moved(0)),
        ReadStep::Done(d) if d.is_empty()
    ));
    assert!(matches!(
        after_read(vec![1, 2, 3], IoOutcome::WouldBlock),
        ReadStep::Retry(b) if b == [1, 2, 3]
    ));
    assert!(matches!(
        after_read(vec![1, 2, 3], IoOutcome::Failed),
        ReadStep::Fail
    ));
}

#[test]
fn writes_go_on_until_done() {
    let data = b"hello world";
    let mut progress = WriteProgress::new(data.len());
    let mut written = Vec::new();
    let mut step = progress.next();
    let mut turn = 0;
    while let WriteStep::WriteFrom(offset) = step {
        turn += 1;
        step = if turn % 2 == 0 {
            progress.after_write(IoOutcome::WouldBlock)
        } else {
            let count = (data.len() - offset).min(4);
            written.extend_from_slice(&data[offset..offset + count]);
            progress.after_write(IoOutcome::Moved(count))
        };
    }
    assert_eq!(step, WriteStep::Done);
    assert_eq!(&written[..], data);
    assert_eq!(WriteProgress::new(0).next(), WriteStep::Done);
    let mut progress = WriteProgress::new(3);
    assert_eq!(progress.after_write(IoOutcome::Failed), WriteStep::Fail);
}

#[test]
fn signals_have_numbers() {
    for number in [
        1, 2, 3, 4, 5, 6, 8, 9, 10, 11, 12, 13, 14, 15, 17, 18, 20, 22, 24, 25, 28, 29,
    ] {
        assert_eq!(child_signal(number), Ok(number));
    }
    for number in [0, -9, 65, 99, i32::MAX, i32::MIN] {
        assert_eq!(child_signal(number), Err(InvalidSignal { number }));
    }
    assert_eq!(checked_signal(40, None), Err(InvalidSignal { number: 40 }));
    assert_eq!(checked_signal(7, Some(7)), Ok(7));
}
