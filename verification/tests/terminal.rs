use rshell::config::TerminalSettings;
use rshell::connection::{ConnectionBackend, ConnectionProfile};
use rshell::terminal::{
    choose_shell, local_pty_size, local_session, on_pty_failure, on_read, on_read_at, on_ssh_event,
    on_ssh_event_at, on_worker_event, on_worker_event_at, remote_pty_size, session_command,
    session_password, set_status, terminal_size, ChildState, PtySize, ReadEvent, SessionCommand,
    SessionPhase, SessionSnapshot, SshEvent, SshReply, TerminalSize, WorkerAction, WorkerEvent,
};

const NOW: &str = "12:34:56";

fn snapshot(phase: SessionPhase) -> SessionSnapshot {
    let mut s = SessionSnapshot::starting("t", "s", "b", "00:00:00");
    s.phase = phase;
    s
}

fn is_time(s: &str) -> bool {
    s.len() == 8
        && s.char_indices().all(|(i, c)| {
            if i == 2 || i == 5 {
                c == ':'
            } else {
                c.is_ascii_digit()
            }
        })
}

#[test]
fn labels_and_classes_of_phases() {
    let all = [
        (SessionPhase::Connecting, "Connecting", "status-indicator", true),
        (SessionPhase::Connected, "Live", "status-indicator connected", true),
        (SessionPhase::Attention, "Attention", "status-indicator", true),
        (SessionPhase::Error, "Error", "status-indicator error", false),
        (SessionPhase::Exited, "Exited", "status-indicator error", false),
    ];
    for (phase, label, class, live) in all {
        assert_eq!(phase.label(), label);
        assert_eq!(phase.css_class(), class);
        assert_eq!(phase.live(), live);
    }
}

#[test]
fn new_snapshot_is_connecting() {
    let s = SessionSnapshot::new("title", "sub", "local");
    assert_eq!(s.title, "title");
    assert_eq!(s.subtitle, "sub");
    assert_eq!(s.backend, "local");
    assert_eq!(s.phase, SessionPhase::Connecting);
    assert_eq!(s.status_line, "Starting session...");
    assert_eq!(s.started_at, s.updated_at);
    assert!(is_time(&s.started_at));
}

#[test]
fn snapshot_of_a_profile() {
    let mut p = ConnectionProfile::new("Prod", " host ");
    p.backend = ConnectionBackend::WezTermSsh;
    let s = SessionSnapshot::from_profile(&p);
    assert_eq!(s.title, "Prod");
    assert_eq!(s.subtitle, "host:22");
    assert_eq!(s.backend, "WezTerm SSH");
    assert_eq!(s.clone().title, "Prod");
}

#[test]
fn set_status_changes_phase_line_and_time() {
    let mut s = snapshot(SessionPhase::Connecting);
    set_status(&mut s, SessionPhase::Attention, "look".into());
    assert_eq!(s.phase, SessionPhase::Attention);
    assert_eq!(s.status_line, "look");
    assert!(is_time(&s.updated_at));
    assert_eq!(s.started_at, "00:00:00");
}

#[test]
fn reading_output() {
    let mut s = snapshot(SessionPhase::Connecting);
    assert!(on_read_at(&mut s, ReadEvent::Output, NOW));
    assert_eq!(s.phase, SessionPhase::Connected);
    assert_eq!(s.status_line, "Terminal stream active · updated 12:34:56");
    assert!(on_read_at(&mut s, ReadEvent::Output, "12:34:57"));
    assert_eq!(s.status_line, "Last output received at 12:34:57");
    let mut s = snapshot(SessionPhase::Attention);
    assert!(on_read_at(&mut s, ReadEvent::Output, NOW));
    assert_eq!(s.phase, SessionPhase::Connected);
    for phase in [SessionPhase::Error, SessionPhase::Exited] {
        let mut s = snapshot(phase);
        assert!(on_read_at(&mut s, ReadEvent::Output, NOW));
        assert_eq!(s.phase, phase);
        assert_eq!(s.status_line, "Starting session...");
        assert_eq!(s.updated_at, NOW);
    }
    let mut s = snapshot(SessionPhase::Connecting);
    assert!(on_read(&mut s, ReadEvent::Output));
    assert!(is_time(&s.updated_at));
}

#[test]
fn reading_ends() {
    let mut s = snapshot(SessionPhase::Connected);
    assert!(!on_read_at(&mut s, ReadEvent::Closed, NOW));
    assert_eq!((s.phase, s.status_line.as_str()), (SessionPhase::Exited, "Stream closed"));
    let mut s = snapshot(SessionPhase::Connected);
    assert!(!on_read_at(&mut s, ReadEvent::TerminalLost, NOW));
    assert_eq!(
        (s.phase, s.status_line.as_str()),
        (SessionPhase::Error, "Terminal state corrupted")
    );
    let mut s = snapshot(SessionPhase::Connected);
    assert!(on_read_at(&mut s, ReadEvent::Interrupted, NOW));
    assert_eq!(s.phase, SessionPhase::Connected);
    assert_eq!(s.updated_at, "00:00:00");
    assert!(!on_read_at(&mut s, ReadEvent::Failed("boom".into()), NOW));
    assert_eq!(
        (s.phase, s.status_line.as_str()),
        (SessionPhase::Error, "PTY read failed: boom")
    );
}

#[test]
fn worker_serves_requests() {
    let mut s = snapshot(SessionPhase::Connected);
    let event = WorkerEvent::Received(SessionCommand::InputBytes(vec![1, 2]));
    assert!(matches!(
        on_worker_event_at(&mut s, event, NOW),
        WorkerAction::Write(bytes) if bytes == vec![1, 2]
    ));
    let event = WorkerEvent::Received(SessionCommand::Shutdown);
    assert!(matches!(on_worker_event_at(&mut s, event, NOW), WorkerAction::Kill));
    assert!(matches!(
        on_worker_event_at(&mut s, WorkerEvent::Disconnected, NOW),
        WorkerAction::Kill
    ));
    assert!(matches!(on_worker_event_at(&mut s, WorkerEvent::Idle, NOW), WorkerAction::Poll));
    assert!(matches!(
        on_worker_event_at(&mut s, WorkerEvent::Written(None), NOW),
        WorkerAction::Poll
    ));
    assert!(matches!(
        on_worker_event_at(&mut s, WorkerEvent::Resized(None), NOW),
        WorkerAction::Poll
    ));
    assert!(matches!(
        on_worker_event(&mut s, WorkerEvent::Polled(ChildState::Running)),
        WorkerAction::Receive
    ));
    assert_eq!(s.phase, SessionPhase::Connected);
    assert_eq!(s.updated_at, "00:00:00");
}

#[test]
fn worker_resizes() {
    let mut s = snapshot(SessionPhase::Connected);
    let event = WorkerEvent::Received(SessionCommand::Resize { cols: 100, rows: 30 });
    match on_worker_event_at(&mut s, event, NOW) {
        WorkerAction::Resize(terminal, pty) => {
            assert_eq!(
                terminal,
                TerminalSize { rows: 30, cols: 100, pixel_width: 800, pixel_height: 480, dpi: 96 }
            );
            assert_eq!(
                pty,
                PtySize { rows: 30, cols: 100, pixel_width: 800, pixel_height: 480 }
            );
        }
        _ => panic!("not resized"),
    }
    let event = WorkerEvent::Received(SessionCommand::Resize { cols: 9000, rows: 5000 });
    match on_worker_event_at(&mut s, event, NOW) {
        WorkerAction::Resize(terminal, pty) => {
            assert_eq!((terminal.pixel_width, terminal.pixel_height), (72000, 80000));
            assert_eq!((pty.pixel_width, pty.pixel_height), (65535, 65535));
        }
        _ => panic!("not resized"),
    }
}

#[test]
fn worker_reports_failures() {
    let mut s = snapshot(SessionPhase::Connected);
    assert!(matches!(
        on_worker_event_at(&mut s, WorkerEvent::Resized(Some("e".into())), NOW),
        WorkerAction::Poll
    ));
    assert_eq!(
        (s.phase, s.status_line.as_str()),
        (SessionPhase::Attention, "Resize request failed: e")
    );
    assert!(matches!(
        on_worker_event_at(&mut s, WorkerEvent::Written(Some("w".into())), NOW),
        WorkerAction::Stop
    ));
    assert_eq!((s.phase, s.status_line.as_str()), (SessionPhase::Error, "Send failed: w"));
    let ended = WorkerEvent::Polled(ChildState::Ended("code 1".into()));
    assert!(matches!(on_worker_event_at(&mut s, ended, NOW), WorkerAction::Stop));
    assert_eq!(
        (s.phase, s.status_line.as_str()),
        (SessionPhase::Exited, "Session ended with code 1")
    );
    let unknown = WorkerEvent::Polled(ChildState::Unknown("u".into()));
    assert!(matches!(on_worker_event_at(&mut s, unknown, NOW), WorkerAction::Stop));
    assert_eq!(
        (s.phase, s.status_line.as_str()),
        (SessionPhase::Error, "Failed to poll child process: u")
    );
}

#[test]
fn ssh_host_verification() {
    let mut s = snapshot(SessionPhase::Connecting);
    let reply = on_ssh_event_at(&mut s, SshEvent::HostVerify("key?".into()), &None, true, NOW);
    assert!(matches!(reply, SshReply::TrustHost(true)));
    assert_eq!(s.phase, SessionPhase::Connecting);
    assert_eq!(s.status_line, "Host verification accepted automatically: key?");
    let reply = on_ssh_event(&mut s, SshEvent::HostVerify("key?".into()), &None, false);
    assert!(matches!(reply, SshReply::TrustHost(false)));
    assert_eq!(s.phase, SessionPhase::Error);
    assert_eq!(s.status_line, "Host verification rejected: key?");
}

#[test]
fn ssh_challenges() {
    let mut s = snapshot(SessionPhase::Connecting);
    let password = Some("pw".to_string());
    let event = SshEvent::Authenticate(vec![false, true]);
    match on_ssh_event_at(&mut s, event, &password, true, NOW) {
        SshReply::Answers(answers) => assert_eq!(answers, vec!["pw", ""]),
        _ => panic!("no answers"),
    }
    assert_eq!(s.status_line, "Authentication challenge answered using saved credentials");
    for event in [SshEvent::Authenticate(vec![]), SshEvent::Authenticate(vec![true])] {
        assert!(matches!(
            on_ssh_event_at(&mut s, event, &password, true, NOW),
            SshReply::Answers(_)
        ));
        assert_eq!(
            s.status_line,
            "Authentication challenge received but no password is configured"
        );
    }
    match on_ssh_event_at(&mut s, SshEvent::Authenticate(vec![false]), &None, true, NOW) {
        SshReply::Answers(answers) => assert_eq!(answers, vec![""]),
        _ => panic!("no answers"),
    }
}

#[test]
fn ssh_other_events() {
    let mut s = snapshot(SessionPhase::Connecting);
    on_ssh_event_at(&mut s, SshEvent::Banner(None), &None, true, NOW);
    assert_eq!(s.status_line, "Starting session...");
    on_ssh_event_at(&mut s, SshEvent::Banner(Some("hi".into())), &None, true, NOW);
    assert_eq!(s.status_line, "hi");
    on_ssh_event_at(&mut s, SshEvent::Authenticated, &None, true, NOW);
    assert_eq!(
        (s.phase, s.status_line.as_str()),
        (SessionPhase::Connected, "Authenticated via wezterm-ssh")
    );
    let reply = on_ssh_event_at(&mut s, SshEvent::Error("bad".into()), &None, true, NOW);
    assert!(matches!(reply, SshReply::Nothing));
    assert_eq!((s.phase, s.status_line.as_str()), (SessionPhase::Error, "bad"));
}

#[test]
fn sizes_at_the_start() {
    let settings = TerminalSettings::default().resolve();
    let size = local_pty_size(&settings);
    assert_eq!(size, PtySize { rows: 36, cols: 120, pixel_width: 960, pixel_height: 576 });
    assert_eq!(
        terminal_size(size),
        TerminalSize { rows: 36, cols: 120, pixel_width: 960, pixel_height: 576, dpi: 96 }
    );
    assert_eq!(
        remote_pty_size(),
        PtySize { rows: 36, cols: 120, pixel_width: 960, pixel_height: 640 }
    );
}

#[test]
fn password_and_command_of_a_profile() {
    let mut p = ConnectionProfile::new("x", "h");
    assert_eq!(session_password(&p), None);
    assert_eq!(session_command(&p), None);
    p.password = " pw ".into();
    p.remote_command = " top ".into();
    assert_eq!(session_password(&p), Some("pw".into()));
    assert_eq!(session_command(&p), Some("top".into()));
}

#[test]
fn shells_by_preference() {
    let own = Some("/bin/own".to_string());
    let user = Some("/bin/zsh".to_string());
    assert_eq!(choose_shell(own.clone(), user.clone(), false), "/bin/own");
    assert_eq!(choose_shell(own, user.clone(), true), "/bin/own");
    assert_eq!(choose_shell(None, user.clone(), false), "/bin/zsh");
    assert_eq!(choose_shell(None, None, false), "/bin/sh");
    assert_eq!(choose_shell(None, user, true), "powershell.exe");
}

#[test]
fn local_session_is_connected() {
    let s = local_session(&Some("zsh".into()));
    assert_eq!(s.title, "Local Shell");
    assert_eq!(s.subtitle, "zsh");
    assert_eq!(s.backend, "local");
    assert_eq!(s.phase, SessionPhase::Connected);
    assert_eq!(s.status_line, "Local shell (zsh) running");
    assert_eq!(local_session(&None).subtitle, "shell");
}

#[test]
fn a_refused_terminal_is_an_error() {
    let mut s = snapshot(SessionPhase::Connecting);
    on_pty_failure(&mut s, "no channel");
    assert_eq!(s.phase, SessionPhase::Error);
    assert_eq!(s.status_line, "PTY request failed: no channel");
    assert!(is_time(&s.updated_at));
}
