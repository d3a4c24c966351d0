//! Terminal sessions: their phases, what is shown of them, and how they react to what
//! comes from the terminal, from the user and from the ssh connection.

use vstd::prelude::*;
use crate::config::ResolvedTerminalSettings;
use crate::config;
use crate::connection::ConnectionProfile;
use crate::connection;
use crate::ssh;
use crate::text;

verus! {

/// The phases of a session.
#[derive(Debug, Clone, Copy, PartialEq, Eq, Structural)]
pub enum SessionPhase {
    Connecting,
    Connected,
    Attention,
    Error,
    Exited,
}

impl SessionPhase {
    /// The text shown for the phase.
    pub open spec fn caption(self) -> Seq<char> {
        match self {
            SessionPhase::Connecting => "Connecting"@,
            SessionPhase::Connected => "Live"@,
            SessionPhase::Attention => "Attention"@,
            SessionPhase::Error => "Error"@,
            SessionPhase::Exited => "Exited"@,
        }
    }

    /// Whether a session in this phase still runs.
    pub open spec fn is_live(self) -> bool {
        match self {
            SessionPhase::Connecting | SessionPhase::Connected | SessionPhase::Attention => true,
            SessionPhase::Error | SessionPhase::Exited => false,
        }
    }

    /// The style classes of the status indicator.
    pub fn css_class(&self) -> (r: &'static str)
        ensures
            r@ == (match *self {
                SessionPhase::Connecting => "status-indicator"@,
                SessionPhase::Connected => "status-indicator connected"@,
                SessionPhase::Attention => "status-indicator"@,
                SessionPhase::Error => "status-indicator error"@,
                SessionPhase::Exited => "status-indicator error"@,
            }),
    {
        match self {
            Self::Connecting => "status-indicator",
            Self::Connected => "status-indicator connected",
            Self::Attention => "status-indicator",
            Self::Error | Self::Exited => "status-indicator error",
        }
    }

    /// The text shown for the phase.
    pub fn label(&self) -> (r: &'static str)
        ensures
            r@ == self.caption(),
    {
        match self {
            Self::Connecting => "Connecting",
            Self::Connected => "Live",
            Self::Attention => "Attention",
            Self::Error => "Error",
            Self::Exited => "Exited",
        }
    }

    /// Whether a session in this phase still runs.
    pub fn live(&self) -> (r: bool)
        ensures
            r == self.is_live(),
    {
        match self {
            Self::Connecting | Self::Connected | Self::Attention => true,
            Self::Error | Self::Exited => false,
        }
    }
}

/// What is shown of a session.
#[derive(Debug)]
pub struct SessionSnapshot {
    pub title: String,
    pub subtitle: String,
    pub backend: String,
    pub phase: SessionPhase,
    pub status_line: String,
    pub started_at: String,
    pub updated_at: String,
}

/// `SessionSnapshot` with its texts as sequences of characters.
#[verifier::ext_equal]
pub struct SnapshotView {
    pub title: Seq<char>,
    pub subtitle: Seq<char>,
    pub backend: Seq<char>,
    pub phase: SessionPhase,
    pub status_line: Seq<char>,
    pub started_at: Seq<char>,
    pub updated_at: Seq<char>,
}

impl View for SessionSnapshot {
    type V = SnapshotView;

    open spec fn view(&self) -> SnapshotView {
        SnapshotView {
            title: self.title@,
            subtitle: self.subtitle@,
            backend: self.backend@,
            phase: self.phase,
            status_line: self.status_line@,
            started_at: self.started_at@,
            updated_at: self.updated_at@,
        }
    }
}

impl Clone for SessionSnapshot {
    fn clone(&self) -> (r: Self)
        ensures
            r == *self,
    {
        SessionSnapshot {
            title: self.title.clone(),
            subtitle: self.subtitle.clone(),
            backend: self.backend.clone(),
            phase: self.phase,
            status_line: self.status_line.clone(),
            started_at: self.started_at.clone(),
            updated_at: self.updated_at.clone(),
        }
    }
}

/// Whether a text is a time of day as `HH:MM:SS`.
pub open spec fn is_clock_label(s: Seq<char>) -> bool {
    &&& s.len() == 8
    &&& s[2] == ':'
    &&& s[5] == ':'
    &&& forall|i: int| 0 <= i < 8 && i != 2 && i != 5 ==> '0' <= #[trigger] s[i] <= '9'
}

/// `chrono::Local::now`, formatted as `%H:%M:%S`: the local time of day, hours,
/// minutes and seconds with two digits each. Which time it is, is not said.
#[verifier::external_body]
fn clock_label() -> (now: String)
    ensures
        is_clock_label(now@),
{
    chrono::Local::now().format("%H:%M:%S").to_string()
}

/// A session that starts at the time `now`.
pub open spec fn starting_snapshot(
    title: Seq<char>,
    subtitle: Seq<char>,
    backend: Seq<char>,
    now: Seq<char>,
) -> SnapshotView {
    SnapshotView {
        title,
        subtitle,
        backend,
        phase: SessionPhase::Connecting,
        status_line: "Starting session..."@,
        started_at: now,
        updated_at: now,
    }
}

/// `s` with another phase and status line, changed at the time `now`.
pub open spec fn with_status(
    s: SnapshotView,
    phase: SessionPhase,
    status_line: Seq<char>,
    now: Seq<char>,
) -> SnapshotView {
    SnapshotView { phase, status_line, updated_at: now, ..s }
}

impl SessionSnapshot {
    /// A session that starts now.
    pub fn new(title: &str, subtitle: &str, backend: &str) -> (r: Self)
        ensures
            r@ == starting_snapshot(title@, subtitle@, backend@, r@.started_at),
            is_clock_label(r@.started_at),
    {
        let now = clock_label();
        SessionSnapshot::starting(title, subtitle, backend, now.as_str())
    }

    /// A session that starts at the time `now`.
    pub fn starting(title: &str, subtitle: &str, backend: &str, now: &str) -> (r: Self)
        ensures
            r@ == starting_snapshot(title@, subtitle@, backend@, now@),
    {
        SessionSnapshot {
            title: title.to_owned(),
            subtitle: subtitle.to_owned(),
            backend: backend.to_owned(),
            phase: SessionPhase::Connecting,
            status_line: "Starting session...".to_owned(),
            started_at: now.to_owned(),
            updated_at: now.to_owned(),
        }
    }

    /// A session for a profile that starts now.
    pub fn from_profile(profile: &ConnectionProfile) -> (r: Self)
        ensures
            r@ == starting_snapshot(
                profile@.name,
                connection::host_label_of(profile@),
                profile@.backend.caption(),
                r@.started_at,
            ),
            is_clock_label(r@.started_at),
    {
        let host = profile.host_label();
        SessionSnapshot::new(
            profile.name.as_str(),
            host.as_str(),
            ssh::backend_caption(profile.backend),
        )
    }

    /// Sets phase and status line at the time `now`.
    pub fn set_status_at(&mut self, phase: SessionPhase, status_line: String, now: &str)
        ensures
            final(self)@ == with_status(old(self)@, phase, status_line@, now@),
    {
        self.phase = phase;
        self.status_line = status_line;
        self.updated_at = now.to_owned();
    }
}

/// Sets phase and status line of a session now.
pub fn set_status(snapshot: &mut SessionSnapshot, phase: SessionPhase, status_line: String)
    ensures
        final(snapshot)@ == with_status(
            old(snapshot)@,
            phase,
            status_line@,
            final(snapshot)@.updated_at,
        ),
        is_clock_label(final(snapshot)@.updated_at),
{
    let now = clock_label();
    snapshot.set_status_at(phase, status_line, now.as_str());
}

/// Takes into account that no terminal was given to a session, now.
pub fn on_pty_failure(snapshot: &mut SessionSnapshot, error: &str)
    ensures
        final(snapshot)@ == with_status(
            old(snapshot)@,
            SessionPhase::Error,
            "PTY request failed: "@ + error@,
            final(snapshot)@.updated_at,
        ),
        is_clock_label(final(snapshot)@.updated_at),
{
    set_status(snapshot, SessionPhase::Error, text::joined("PTY request failed: ", error));
}

/// What comes when the stream of a terminal is read.
pub enum ReadEvent {
    /// The stream has ended.
    Closed,
    /// Output came and was handed to the terminal.
    Output,
    /// Output came, but the terminal can no longer be used.
    TerminalLost,
    /// The read was interrupted.
    Interrupted,
    /// The read failed.
    Failed(String),
}

/// What a session becomes when its stream was read at the time `now`, and whether it
/// is read again.
pub open spec fn after_read(s: SnapshotView, event: ReadEvent, now: Seq<char>) -> (
    SnapshotView,
    bool,
) {
    match event {
        ReadEvent::Closed => (
            with_status(s, SessionPhase::Exited, "Stream closed"@, now),
            false,
        ),
        ReadEvent::Output => (
            match s.phase {
                SessionPhase::Connecting => with_status(
                    s,
                    SessionPhase::Connected,
                    "Terminal stream active · updated "@ + now,
                    now,
                ),
                SessionPhase::Connected | SessionPhase::Attention => with_status(
                    s,
                    SessionPhase::Connected,
                    "Last output received at "@ + now,
                    now,
                ),
                SessionPhase::Error | SessionPhase::Exited => SnapshotView { updated_at: now, ..s },
            },
            true,
        ),
        ReadEvent::TerminalLost => (
            with_status(s, SessionPhase::Error, "Terminal state corrupted"@, now),
            false,
        ),
        ReadEvent::Interrupted => (s, true),
        ReadEvent::Failed(error) => (
            with_status(s, SessionPhase::Error, "PTY read failed: "@ + error@, now),
            false,
        ),
    }
}

/// Takes what came from the stream of a terminal into account now; tells whether to
/// read again.
pub fn on_read(snapshot: &mut SessionSnapshot, event: ReadEvent) -> (go_on: bool)
    ensures
        exists|now: Seq<char>|
            is_clock_label(now) && (final(snapshot)@, go_on) == #[trigger] after_read(
                old(snapshot)@,
                event,
                now,
            ),
{
    let now = clock_label();
    on_read_at(snapshot, event, now.as_str())
}

/// Takes what came from the stream of a terminal into account at the time `now`;
/// tells whether to read again.
pub fn on_read_at(snapshot: &mut SessionSnapshot, event: ReadEvent, now: &str) -> (go_on: bool)
    ensures
        (final(snapshot)@, go_on) == after_read(old(snapshot)@, event, now@),
{
    match event {
        ReadEvent::Closed => {
            snapshot.set_status_at(SessionPhase::Exited, "Stream closed".to_owned(), now);
            false
        },
        ReadEvent::Output => {
            match snapshot.phase {
                SessionPhase::Connecting => {
                    let line = text::joined("Terminal stream active · updated ", now);
                    snapshot.set_status_at(SessionPhase::Connected, line, now);
                },
                SessionPhase::Connected | SessionPhase::Attention => {
                    let line = text::joined("Last output received at ", now);
                    snapshot.set_status_at(SessionPhase::Connected, line, now);
                },
                SessionPhase::Error | SessionPhase::Exited => {
                    snapshot.updated_at = now.to_owned();
                },
            }
            true
        },
        ReadEvent::TerminalLost => {
            let line = "Terminal state corrupted".to_owned();
            snapshot.set_status_at(SessionPhase::Error, line, now);
            false
        },
        ReadEvent::Interrupted => true,
        ReadEvent::Failed(error) => {
            let line = text::joined("PTY read failed: ", error.as_str());
            snapshot.set_status_at(SessionPhase::Error, line, now);
            false
        },
    }
}

/// A size of a pseudo terminal in cells and in pixels.
#[derive(Debug, Clone, Copy, PartialEq, Eq, Structural)]
pub struct PtySize {
    pub rows: u16,
    pub cols: u16,
    pub pixel_width: u16,
    pub pixel_height: u16,
}

/// A size of a terminal in cells and in pixels.
#[derive(Debug, Clone, Copy, PartialEq, Eq, Structural)]
pub struct TerminalSize {
    pub rows: usize,
    pub cols: usize,
    pub pixel_width: usize,
    pub pixel_height: usize,
    pub dpi: u32,
}

/// The size of remote sessions at their start.
pub fn remote_pty_size() -> (r: PtySize)
    ensures
        r == (PtySize { rows: 36, cols: 120, pixel_width: 960, pixel_height: 640 }),
{
    PtySize { rows: 36, cols: 120, pixel_width: 960, pixel_height: 640 }
}

/// The size of local sessions at their start, at 8 by 16 pixels a cell.
pub fn local_pty_size(settings: &ResolvedTerminalSettings) -> (r: PtySize)
    requires
        settings.initial_cols * 8 <= u16::MAX,
        settings.initial_rows * 16 <= u16::MAX,
    ensures
        r.rows == settings.initial_rows,
        r.cols == settings.initial_cols,
        r.pixel_width == settings.initial_cols * 8,
        r.pixel_height == settings.initial_rows * 16,
{
    PtySize {
        rows: settings.initial_rows,
        cols: settings.initial_cols,
        pixel_width: settings.initial_cols * 8,
        pixel_height: settings.initial_rows * 16,
    }
}

/// The size of the terminal that fills a pseudo terminal.
pub fn terminal_size(size: PtySize) -> (r: TerminalSize)
    ensures
        r.rows == size.rows,
        r.cols == size.cols,
        r.pixel_width == size.pixel_width,
        r.pixel_height == size.pixel_height,
        r.dpi == 96,
{
    TerminalSize {
        rows: size.rows as usize,
        cols: size.cols as usize,
        pixel_width: size.pixel_width as usize,
        pixel_height: size.pixel_height as usize,
        dpi: 96,
    }
}

/// `n`, or the largest value that fits in 16 bits.
pub open spec fn at_most_u16(n: int) -> u16 {
    if n <= u16::MAX {
        n as u16
    } else {
        u16::MAX
    }
}

/// The sizes that a terminal and its pseudo terminal get for a number of cells of 8
/// by 16 pixels. Pixels of the pseudo terminal that do not fit are cut off.
pub open spec fn resized(cols: u16, rows: u16) -> (TerminalSize, PtySize) {
    (
        TerminalSize {
            rows: rows as usize,
            cols: cols as usize,
            pixel_width: (cols * 8) as usize,
            pixel_height: (rows * 16) as usize,
            dpi: 96,
        },
        PtySize { rows, cols, pixel_width: at_most_u16(cols * 8), pixel_height: at_most_u16(rows * 16) },
    )
}

fn scaled(n: u16, by: u16) -> (r: u16)
    requires
        by <= 16,
    ensures
        r == at_most_u16(n * by),
{
    assert(n * by <= 65535 * 16) by (nonlinear_arith)
        requires
            n <= 65535,
            by <= 16,
    ;
    let product: u32 = n as u32 * by as u32;
    if product <= 65535 {
        product as u16
    } else {
        65535
    }
}

/// A request to a session.
#[derive(Debug)]
pub enum SessionCommand {
    InputBytes(Vec<u8>),
    Resize { cols: u16, rows: u16 },
    Shutdown,
}

/// What comes to the worker that serves the requests to a session.
pub enum WorkerEvent {
    /// A request came.
    Received(SessionCommand),
    /// No request came for a while.
    Idle,
    /// No request can come any more.
    Disconnected,
    /// The bytes were written, or the error that writing them gave.
    Written(Option<String>),
    /// The sizes were changed, or the error that changing that of the pseudo terminal
    /// gave.
    Resized(Option<String>),
    /// The child process was asked how it is.
    Polled(ChildState),
}

/// How a child process is.
pub enum ChildState {
    Running,
    /// It ended, with a description of how.
    Ended(String),
    /// It could not be asked, with the error.
    Unknown(String),
}

/// What the worker does next.
pub enum WorkerAction {
    /// Wait for a request.
    Receive,
    /// Write the bytes to the session.
    Write(Vec<u8>),
    /// Change the sizes.
    Resize(TerminalSize, PtySize),
    /// Ask the child process how it is.
    Poll,
    /// End the child process and stop.
    Kill,
    /// Stop.
    Stop,
}

/// What the worker does upon an event.
pub open spec fn worker_action(event: WorkerEvent) -> WorkerAction {
    match event {
        WorkerEvent::Received(SessionCommand::InputBytes(bytes)) => WorkerAction::Write(bytes),
        WorkerEvent::Received(SessionCommand::Resize { cols, rows }) => {
            let (terminal, pty) = resized(cols, rows);
            WorkerAction::Resize(terminal, pty)
        },
        WorkerEvent::Received(SessionCommand::Shutdown) => WorkerAction::Kill,
        WorkerEvent::Idle => WorkerAction::Poll,
        WorkerEvent::Disconnected => WorkerAction::Kill,
        WorkerEvent::Written(None) => WorkerAction::Poll,
        WorkerEvent::Written(Some(_)) => WorkerAction::Stop,
        WorkerEvent::Resized(_) => WorkerAction::Poll,
        WorkerEvent::Polled(ChildState::Running) => WorkerAction::Receive,
        WorkerEvent::Polled(ChildState::Ended(_)) => WorkerAction::Stop,
        WorkerEvent::Polled(ChildState::Unknown(_)) => WorkerAction::Stop,
    }
}

/// What a session becomes when an event comes to its worker at the time `now`.
pub open spec fn after_worker_event(s: SnapshotView, event: WorkerEvent, now: Seq<char>) -> SnapshotView {
    match event {
        WorkerEvent::Written(Some(error)) => with_status(
            s,
            SessionPhase::Error,
            "Send failed: "@ + error@,
            now,
        ),
        WorkerEvent::Resized(Some(error)) => with_status(
            s,
            SessionPhase::Attention,
            "Resize request failed: "@ + error@,
            now,
        ),
        WorkerEvent::Polled(ChildState::Ended(status)) => with_status(
            s,
            SessionPhase::Exited,
            "Session ended with "@ + status@,
            now,
        ),
        WorkerEvent::Polled(ChildState::Unknown(error)) => with_status(
            s,
            SessionPhase::Error,
            "Failed to poll child process: "@ + error@,
            now,
        ),
        _ => s,
    }
}

/// Takes an event at the worker of a session into account now; gives what to do next.
pub fn on_worker_event(snapshot: &mut SessionSnapshot, event: WorkerEvent) -> (action: WorkerAction)
    ensures
        action == worker_action(event),
        exists|now: Seq<char>|
            is_clock_label(now) && final(snapshot)@ == #[trigger] after_worker_event(
                old(snapshot)@,
                event,
                now,
            ),
{
    let now = clock_label();
    on_worker_event_at(snapshot, event, now.as_str())
}

/// Takes an event at the worker of a session into account at the time `now`; gives
/// what to do next.
pub fn on_worker_event_at(snapshot: &mut SessionSnapshot, event: WorkerEvent, now: &str) -> (action:
    WorkerAction)
    ensures
        action == worker_action(event),
        final(snapshot)@ == after_worker_event(old(snapshot)@, event, now@),
{
    match event {
        WorkerEvent::Received(command) => match command {
            SessionCommand::InputBytes(bytes) => WorkerAction::Write(bytes),
            SessionCommand::Resize { cols, rows } => {
                let terminal = TerminalSize {
                    rows: rows as usize,
                    cols: cols as usize,
                    pixel_width: cols as usize * 8,
                    pixel_height: rows as usize * 16,
                    dpi: 96,
                };
                let pty = PtySize {
                    rows,
                    cols,
                    pixel_width: scaled(cols, 8),
                    pixel_height: scaled(rows, 16),
                };
                WorkerAction::Resize(terminal, pty)
            },
            SessionCommand::Shutdown => WorkerAction::Kill,
        },
        WorkerEvent::Idle => WorkerAction::Poll,
        WorkerEvent::Disconnected => WorkerAction::Kill,
        WorkerEvent::Written(result) => match result {
            None => WorkerAction::Poll,
            Some(error) => {
                let line = text::joined("Send failed: ", error.as_str());
                snapshot.set_status_at(SessionPhase::Error, line, now);
                WorkerAction::Stop
            },
        },
        WorkerEvent::Resized(result) => {
            if let Some(error) = result {
                let line = text::joined("Resize request failed: ", error.as_str());
                snapshot.set_status_at(SessionPhase::Attention, line, now);
            }
            WorkerAction::Poll
        },
        WorkerEvent::Polled(state) => match state {
            ChildState::Running => WorkerAction::Receive,
            ChildState::Ended(status) => {
                let line = text::joined("Session ended with ", status.as_str());
                snapshot.set_status_at(SessionPhase::Exited, line, now);
                WorkerAction::Stop
            },
            ChildState::Unknown(error) => {
                let line = text::joined("Failed to poll child process: ", error.as_str());
                snapshot.set_status_at(SessionPhase::Error, line, now);
                WorkerAction::Stop
            },
        },
    }
}

/// Reading never brings a session back that has failed or ended.
pub proof fn reading_never_revives(s: SnapshotView, event: ReadEvent, now: Seq<char>)
    requires
        !s.phase.is_live(),
    ensures
        !after_read(s, event, now).0.phase.is_live(),
{
}

/// A session whose stream is not read again has failed or ended.
pub proof fn reading_stops_dead(s: SnapshotView, event: ReadEvent, now: Seq<char>)
    requires
        !after_read(s, event, now).1,
    ensures
        !after_read(s, event, now).0.phase.is_live(),
{
}

/// A session whose worker stops of itself has failed or ended.
pub proof fn worker_stops_dead(s: SnapshotView, event: WorkerEvent, now: Seq<char>)
    requires
        worker_action(event) is Stop,
    ensures
        !after_worker_event(s, event, now).phase.is_live(),
{
}

/// What comes from an ssh connection that is being made.
pub enum SshEvent {
    /// A greeting, if any.
    Banner(Option<String>),
    /// The question whether the host is trusted.
    HostVerify(String),
    /// A challenge with prompts; of each, whether its answer is shown while typed.
    Authenticate(Vec<bool>),
    /// The connection failed.
    Error(String),
    /// The connection was authenticated.
    Authenticated,
}

/// What is answered to an event of an ssh connection.
pub enum SshReply {
    Nothing,
    /// Whether the host is trusted.
    TrustHost(bool),
    /// The answers to the prompts of a challenge.
    Answers(Vec<String>),
}

/// The answers to prompts: the password where the answer is not shown, else nothing.
pub open spec fn prompt_answers(shown: Seq<bool>, password: Option<Seq<char>>) -> Seq<Seq<char>> {
    Seq::new(
        shown.len(),
        |i: int|
            if shown[i] || password is None {
                Seq::empty()
            } else {
                password->0
            },
    )
}

/// Whether all answers are empty.
pub open spec fn all_empty(answers: Seq<Seq<char>>) -> bool {
    forall|i: int| 0 <= i < answers.len() ==> (#[trigger] answers[i]).len() == 0
}

/// What a session becomes when an event of its ssh connection comes at the time
/// `now`.
pub open spec fn after_ssh_event(
    s: SnapshotView,
    event: SshEvent,
    password: Option<Seq<char>>,
    auto_accept: bool,
    now: Seq<char>,
) -> SnapshotView {
    match event {
        SshEvent::Banner(Some(message)) => with_status(
            s,
            SessionPhase::Connecting,
            message@,
            now,
        ),
        SshEvent::Banner(None) => s,
        SshEvent::HostVerify(message) => if auto_accept {
            with_status(
                s,
                SessionPhase::Connecting,
                "Host verification accepted automatically: "@ + message@,
                now,
            )
        } else {
            with_status(s, SessionPhase::Error, "Host verification rejected: "@ + message@, now)
        },
        SshEvent::Authenticate(shown) => with_status(
            s,
            SessionPhase::Connecting,
            if all_empty(prompt_answers(shown@, password)) {
                "Authentication challenge received but no password is configured"@
            } else {
                "Authentication challenge answered using saved credentials"@
            },
            now,
        ),
        SshEvent::Error(error) => with_status(s, SessionPhase::Error, error@, now),
        SshEvent::Authenticated => with_status(
            s,
            SessionPhase::Connected,
            "Authenticated via wezterm-ssh"@,
            now,
        ),
    }
}

/// Whether `reply` is what is answered to an event of an ssh connection: a host is
/// trusted if and only if that is allowed, and prompts get their answers.
pub open spec fn is_ssh_reply(
    reply: SshReply,
    event: SshEvent,
    password: Option<Seq<char>>,
    auto_accept: bool,
) -> bool {
    match event {
        SshEvent::HostVerify(_) => reply == SshReply::TrustHost(auto_accept),
        SshEvent::Authenticate(shown) => match reply {
            SshReply::Answers(answers) => answers.deep_view() == prompt_answers(shown@, password),
            _ => false,
        },
        _ => reply is Nothing,
    }
}

fn answer_prompts(shown: &Vec<bool>, password: &Option<String>) -> (answers: Vec<String>)
    ensures
        answers.deep_view() == prompt_answers(shown@, config::text_view(*password)),
{
    let mut answers: Vec<String> = Vec::new();
    let mut i: usize = 0;
    while i < shown.len()
        invariant
            i <= shown@.len(),
            answers@.len() == i,
            forall|j: int|
                0 <= j < i ==> (#[trigger] answers@[j])@ == prompt_answers(
                    shown@,
                    config::text_view(*password),
                )[j],
        decreases shown@.len() - i,
    {
        if shown[i] {
            answers.push(String::new());
        } else {
            match password {
                Some(p) => answers.push(p.clone()),
                None => answers.push(String::new()),
            }
        }
        i = i + 1;
    }
    assert(answers.deep_view() =~= prompt_answers(shown@, config::text_view(*password)));
    answers
}

fn none_given(answers: &Vec<String>) -> (r: bool)
    ensures
        r == all_empty(answers.deep_view()),
{
    let mut i: usize = 0;
    while i < answers.len()
        invariant
            i <= answers@.len(),
            forall|j: int| 0 <= j < i ==> (#[trigger] answers.deep_view()[j]).len() == 0,
        decreases answers@.len() - i,
    {
        if answers[i].as_str().unicode_len() > 0 {
            assert(answers.deep_view()[i as int].len() > 0);
            return false;
        }
        i = i + 1;
    }
    true
}

/// Takes an event of an ssh connection into account now; gives the answer to it.
pub fn on_ssh_event(
    snapshot: &mut SessionSnapshot,
    event: SshEvent,
    password: &Option<String>,
    auto_accept: bool,
) -> (reply: SshReply)
    ensures
        is_ssh_reply(reply, event, config::text_view(*password), auto_accept),
        exists|now: Seq<char>|
            is_clock_label(now) && final(snapshot)@ == #[trigger] after_ssh_event(
                old(snapshot)@,
                event,
                config::text_view(*password),
                auto_accept,
                now,
            ),
{
    let now = clock_label();
    on_ssh_event_at(snapshot, event, password, auto_accept, now.as_str())
}

/// Takes an event of an ssh connection into account at the time `now`; gives the
/// answer to it.
pub fn on_ssh_event_at(
    snapshot: &mut SessionSnapshot,
    event: SshEvent,
    password: &Option<String>,
    auto_accept: bool,
    now: &str,
) -> (reply: SshReply)
    ensures
        is_ssh_reply(reply, event, config::text_view(*password), auto_accept),
        final(snapshot)@ == after_ssh_event(
            old(snapshot)@,
            event,
            config::text_view(*password),
            auto_accept,
            now@,
        ),
{
    match event {
        SshEvent::Banner(message) => {
            if let Some(line) = message {
                snapshot.set_status_at(SessionPhase::Connecting, line, now);
            }
            SshReply::Nothing
        },
        SshEvent::HostVerify(message) => {
            if auto_accept {
                let line = text::joined(
                    "Host verification accepted automatically: ",
                    message.as_str(),
                );
                snapshot.set_status_at(SessionPhase::Connecting, line, now);
            } else {
                let line = text::joined("Host verification rejected: ", message.as_str());
                snapshot.set_status_at(SessionPhase::Error, line, now);
            }
            SshReply::TrustHost(auto_accept)
        },
        SshEvent::Authenticate(shown) => {
            let answers = answer_prompts(&shown, password);
            let line = if none_given(&answers) {
                "Authentication challenge received but no password is configured".to_owned()
            } else {
                "Authentication challenge answered using saved credentials".to_owned()
            };
            snapshot.set_status_at(SessionPhase::Connecting, line, now);
            SshReply::Answers(answers)
        },
        SshEvent::Error(error) => {
            snapshot.set_status_at(SessionPhase::Error, error, now);
            SshReply::Nothing
        },
        SshEvent::Authenticated => {
            let line = "Authenticated via wezterm-ssh".to_owned();
            snapshot.set_status_at(SessionPhase::Connected, line, now);
            SshReply::Nothing
        },
    }
}

/// `s` trimmed, or nothing where that is empty.
pub open spec fn non_empty(s: Seq<char>) -> Option<Seq<char>> {
    if text::trimmed(s).len() > 0 {
        Some(text::trimmed(s))
    } else {
        None
    }
}

fn given_text(s: &String) -> (r: Option<String>)
    ensures
        config::text_view(r) == non_empty(s@),
{
    let given = text::trim(s.as_str());
    if given.unicode_len() > 0 {
        Some(given.to_owned())
    } else {
        None
    }
}

/// The password that challenges are answered with.
pub fn session_password(profile: &ConnectionProfile) -> (r: Option<String>)
    ensures
        config::text_view(r) == non_empty(profile@.password),
{
    given_text(&profile.password)
}

/// The command that is run in place of a remote shell.
pub fn session_command(profile: &ConnectionProfile) -> (r: Option<String>)
    ensures
        config::text_view(r) == non_empty(profile@.remote_command),
{
    given_text(&profile.remote_command)
}

/// The local shell: what the application's own variable names, or else, except on
/// Windows, what the user's variable names, or else that of the system.
pub fn choose_shell(own: Option<String>, user: Option<String>, windows: bool) -> (r: String)
    ensures
        r@ == (match own {
            Some(shell) => shell@,
            None => if windows {
                "powershell.exe"@
            } else {
                match user {
                    Some(shell) => shell@,
                    None => "/bin/sh"@,
                }
            },
        }),
{
    match own {
        Some(shell) => shell,
        None => {
            if windows {
                "powershell.exe".to_owned()
            } else {
                match user {
                    Some(shell) => shell,
                    None => "/bin/sh".to_owned(),
                }
            }
        },
    }
}

/// What is shown of a local session whose shell was started at the time `now`.
pub open spec fn local_snapshot(shell: Option<Seq<char>>, now: Seq<char>) -> SnapshotView {
    let shell = match shell {
        Some(name) => name,
        None => "shell"@,
    };
    SnapshotView {
        phase: SessionPhase::Connected,
        status_line: "Local shell ("@ + shell + ") running"@,
        ..starting_snapshot("Local Shell"@, shell, "local"@, now)
    }
}

/// What is shown of a local session whose shell was started now. The shell is named
/// after the last part of its path, where it has one.
pub fn local_session(shell: &Option<String>) -> (r: SessionSnapshot)
    ensures
        r@ == local_snapshot(config::text_view(*shell), r@.started_at),
        is_clock_label(r@.started_at),
{
    let name = match shell {
        Some(name) => name.clone(),
        None => "shell".to_owned(),
    };
    let mut snapshot = SessionSnapshot::new("Local Shell", name.as_str(), "local");
    snapshot.phase = SessionPhase::Connected;
    let line = text::joined("Local shell (", name.as_str());
    snapshot.status_line = text::joined(line.as_str(), ") running");
    snapshot
}

/// Every prompt of a challenge gets an answer, in order: the saved password where the
/// answer is hidden and a password is configured, else an empty one.
pub proof fn hidden_prompts_get_the_password(
    snapshot: &mut SessionSnapshot,
    shown: Vec<bool>,
    password: &Option<String>,
    auto_accept: bool,
    now: &str,
    reply: SshReply,
    i: int,
)
    requires
        call_ensures(
            on_ssh_event_at,
            (snapshot, SshEvent::Authenticate(shown), password, auto_accept, now),
            reply,
        ),
    ensures
        reply matches SshReply::Answers(answers) && {
            &&& answers@.len() == shown@.len()
            &&& 0 <= i < shown@.len() && !shown@[i] && *password is Some ==> answers@[i]@ == (
            *password)->0@
            &&& 0 <= i < shown@.len() && shown@[i] ==> answers@[i]@.len() == 0
            &&& 0 <= i < shown@.len() && *password is None ==> answers@[i]@.len() == 0
        },
{
    match reply {
        SshReply::Answers(answers) => {
            let all = answers.deep_view();
            assert(all.len() == answers@.len());
            assert forall|k: int| 0 <= k < all.len() implies (#[trigger] answers@[k])@ == all[k] by {}
        },
        _ => {},
    }
}

/// The status line tells that a challenge was answered with the saved password if and
/// only if that is so: there is a prompt with a hidden answer, and a password that is not
/// empty. The session is connecting in either case.
pub proof fn challenges_are_reported(
    snapshot: &mut SessionSnapshot,
    shown: Vec<bool>,
    password: &Option<String>,
    auto_accept: bool,
    now: &str,
    reply: SshReply,
)
    requires
        call_ensures(
            on_ssh_event_at,
            (snapshot, SshEvent::Authenticate(shown), password, auto_accept, now),
            reply,
        ),
    ensures
        final(snapshot).phase == SessionPhase::Connecting,
        (exists|i: int| 0 <= i < shown@.len() && !#[trigger] shown@[i]) && *password is Some && (
        *password)->0@.len() > 0 ==> final(snapshot).status_line@
            == "Authentication challenge answered using saved credentials"@,
        (forall|i: int| 0 <= i < shown@.len() ==> #[trigger] shown@[i]) || *password is None || (
        *password)->0@.len() == 0 ==> final(snapshot).status_line@
            == "Authentication challenge received but no password is configured"@,
{
    let given = config::text_view(*password);
    let answers = prompt_answers(shown@, given);
    if (exists|i: int| 0 <= i < shown@.len() && !#[trigger] shown@[i]) && *password is Some && (
    *password)->0@.len() > 0 {
        let i = choose|i: int| 0 <= i < shown@.len() && !#[trigger] shown@[i];
        assert(answers[i] == (*password)->0@);
        assert(!all_empty(answers));
    }
    if (forall|i: int| 0 <= i < shown@.len() ==> #[trigger] shown@[i]) || *password is None || (
    *password)->0@.len() == 0 {
        assert forall|i: int| 0 <= i < answers.len() implies (#[trigger] answers[i]).len() == 0 by {
            assert(shown@[i] || !shown@[i]);
        }
        assert(all_empty(answers));
    }
}

/// A host is trusted if and only if new hosts are accepted. One that is not makes the
/// session fail; the status line tells which, and what was asked.
pub proof fn hosts_are_trusted_where_accepted(
    snapshot: &mut SessionSnapshot,
    message: String,
    password: &Option<String>,
    auto_accept: bool,
    now: &str,
    reply: SshReply,
)
    requires
        call_ensures(
            on_ssh_event_at,
            (snapshot, SshEvent::HostVerify(message), password, auto_accept, now),
            reply,
        ),
    ensures
        reply == SshReply::TrustHost(auto_accept),
        auto_accept ==> final(snapshot).phase == SessionPhase::Connecting,
        !auto_accept ==> final(snapshot).phase == SessionPhase::Error,
        message@.is_suffix_of(final(snapshot).status_line@),
        auto_accept ==> "Host verification accepted automatically: "@.is_prefix_of(
            final(snapshot).status_line@,
        ),
        !auto_accept ==> "Host verification rejected: "@.is_prefix_of(final(snapshot).status_line@),
        final(snapshot).updated_at@ == now@,
{
    let yes = "Host verification accepted automatically: "@;
    let no = "Host verification rejected: "@;
    let start = if auto_accept {
        yes
    } else {
        no
    };
    let line = final(snapshot).status_line@;
    assert(line == start + message@);
    assert(line.subrange(line.len() - message@.len(), line.len() as int) =~= message@);
    assert(line.subrange(0, start.len() as int) =~= start);
}

/// A greeting is shown, an error makes the session fail with it, and authentication makes
/// it live. None of them is answered.
pub proof fn other_ssh_events_are_shown(
    snapshot: &mut SessionSnapshot,
    event: SshEvent,
    password: &Option<String>,
    auto_accept: bool,
    now: &str,
    reply: SshReply,
)
    requires
        call_ensures(on_ssh_event_at, (snapshot, event, password, auto_accept, now), reply),
    ensures
        match event {
            SshEvent::Banner(Some(text)) => final(snapshot).phase == SessionPhase::Connecting
                && final(snapshot).status_line@ == text@ && reply is Nothing,
            SshEvent::Banner(None) => final(snapshot)@ == old(snapshot)@ && reply is Nothing,
            SshEvent::Error(text) => final(snapshot).phase == SessionPhase::Error && final(snapshot).status_line@ == text@ && reply is Nothing,
            SshEvent::Authenticated => final(snapshot).phase == SessionPhase::Connected && final(snapshot).status_line@ == "Authenticated via wezterm-ssh"@ && reply is Nothing,
            SshEvent::HostVerify(_) => reply is TrustHost,
            SshEvent::Authenticate(_) => reply is Answers,
        },
{
}

/// Whether two snapshots are of the same session: what it is called and when it started.
pub open spec fn same_session(a: SessionSnapshot, b: SessionSnapshot) -> bool {
    &&& a.title@ == b.title@
    &&& a.subtitle@ == b.subtitle@
    &&& a.backend@ == b.backend@
    &&& a.started_at@ == b.started_at@
}

/// No event of an ssh connection changes which session is shown, and whatever it changes,
/// it changes now.
pub proof fn ssh_events_keep_the_session(
    snapshot: &mut SessionSnapshot,
    event: SshEvent,
    password: &Option<String>,
    auto_accept: bool,
    now: &str,
    reply: SshReply,
)
    requires
        call_ensures(on_ssh_event_at, (snapshot, event, password, auto_accept, now), reply),
    ensures
        same_session(*final(snapshot), *old(snapshot)),
        final(snapshot)@ == old(snapshot)@ || final(snapshot).updated_at@ == now@,
        !(event is Banner) ==> final(snapshot).updated_at@ == now@,
{
}

/// Nothing that is read changes which session is shown, and whatever it changes, it
/// changes now.
pub proof fn reading_keeps_the_session(
    snapshot: &mut SessionSnapshot,
    event: ReadEvent,
    now: &str,
    go_on: bool,
)
    requires
        call_ensures(on_read_at, (snapshot, event, now), go_on),
    ensures
        same_session(*final(snapshot), *old(snapshot)),
        !(event is Interrupted) ==> final(snapshot).updated_at@ == now@,
        event is Interrupted ==> final(snapshot)@ == old(snapshot)@,
{
}

/// Output makes a session live that was being connected or needed attention, and leaves
/// the phase and the status of one that failed or ended alone. The end of the stream ends
/// the session, and an error makes it fail; only then is it not read again.
pub proof fn what_is_read_is_shown(
    snapshot: &mut SessionSnapshot,
    event: ReadEvent,
    now: &str,
    go_on: bool,
)
    requires
        call_ensures(on_read_at, (snapshot, event, now), go_on),
    ensures
        go_on <==> event is Output || event is Interrupted,
        event is Output && old(snapshot).phase.is_live() ==> final(snapshot).phase
            == SessionPhase::Connected && now@.is_suffix_of(final(snapshot).status_line@),
        event is Output && !old(snapshot).phase.is_live() ==> final(snapshot).phase == old(snapshot).phase && final(snapshot).status_line@ == old(snapshot).status_line@,
        event is Output && old(snapshot).phase == SessionPhase::Connecting
            ==> "Terminal stream active · updated "@.is_prefix_of(final(snapshot).status_line@),
        event is Output && (old(snapshot).phase == SessionPhase::Connected || old(snapshot).phase
            == SessionPhase::Attention) ==> "Last output received at "@.is_prefix_of(
            final(snapshot).status_line@,
        ),
        event is Closed ==> final(snapshot).phase == SessionPhase::Exited && final(snapshot).status_line@ == "Stream closed"@,
        event is TerminalLost ==> final(snapshot).phase == SessionPhase::Error && final(snapshot).status_line@ == "Terminal state corrupted"@,
        event matches ReadEvent::Failed(error) ==> final(snapshot).phase == SessionPhase::Error
            && error@.is_suffix_of(final(snapshot).status_line@)
            && "PTY read failed: "@.is_prefix_of(final(snapshot).status_line@),
{
    let line = final(snapshot).status_line@;
    match event {
        ReadEvent::Output => {
            if old(snapshot).phase == SessionPhase::Connecting {
                joined_ends("Terminal stream active · updated "@, now@);
            } else {
                joined_ends("Last output received at "@, now@);
            }
        },
        ReadEvent::Failed(error) => joined_ends("PTY read failed: "@, error@),
        _ => {},
    }
}

/// Two texts joined begin with the one and end with the other.
proof fn joined_ends(a: Seq<char>, b: Seq<char>)
    ensures
        a.is_prefix_of(a + b),
        b.is_suffix_of(a + b),
{
    assert((a + b).subrange(0, a.len() as int) =~= a);
    assert((a + b).subrange((a + b).len() - b.len(), (a + b).len() as int) =~= b);
}

/// The worker of a session writes the bytes that it is given, takes over the size that it
/// is given, and ends the session when it is asked to or can no longer be asked.
pub proof fn worker_does_what_is_asked(
    snapshot: &mut SessionSnapshot,
    command: SessionCommand,
    now: &str,
    action: WorkerAction,
)
    requires
        call_ensures(
            on_worker_event_at,
            (snapshot, WorkerEvent::Received(command), now),
            action,
        ),
    ensures
        final(snapshot)@ == old(snapshot)@,
        command matches SessionCommand::InputBytes(bytes) ==> (action matches WorkerAction::Write(
            written,
        ) && written@ == bytes@),
        command is Shutdown ==> action is Kill,
        command matches SessionCommand::Resize { cols, rows } ==> (
        action matches WorkerAction::Resize(terminal, pty) && {
            &&& terminal.cols == cols && terminal.rows == rows
            &&& pty.cols == cols && pty.rows == rows
            &&& terminal.pixel_width == 8 * cols && terminal.pixel_height == 16 * rows
            &&& terminal.dpi == 96
            &&& 8 * cols <= 65535 ==> pty.pixel_width == 8 * cols
            &&& 8 * cols > 65535 ==> pty.pixel_width == 65535
            &&& 16 * rows <= 65535 ==> pty.pixel_height == 16 * rows
            &&& 16 * rows > 65535 ==> pty.pixel_height == 65535
        }),
{
}

/// After a request, and while there is none, the worker looks after the child process,
/// and waits for the next request while that runs. It stops where the child has ended,
/// cannot be asked, or cannot be written to.
pub proof fn worker_goes_round(
    snapshot: &mut SessionSnapshot,
    event: WorkerEvent,
    now: &str,
    action: WorkerAction,
)
    requires
        call_ensures(on_worker_event_at, (snapshot, event, now), action),
    ensures
        match event {
            WorkerEvent::Received(_) => true,
            WorkerEvent::Idle => action is Poll,
            WorkerEvent::Disconnected => action is Kill,
            WorkerEvent::Written(error) => if error is None {
                action is Poll
            } else {
                action is Stop
            },
            WorkerEvent::Resized(_) => action is Poll,
            WorkerEvent::Polled(ChildState::Running) => action is Receive,
            WorkerEvent::Polled(_) => action is Stop,
        },
{
}

/// What goes wrong at a session is shown with its cause: a write that failed or a child
/// that cannot be asked makes the session fail, a resize that failed needs attention, and
/// the end of the child ends the session. Nothing else changes what is shown.
pub proof fn worker_shows_what_went_wrong(
    snapshot: &mut SessionSnapshot,
    event: WorkerEvent,
    now: &str,
    action: WorkerAction,
)
    requires
        call_ensures(on_worker_event_at, (snapshot, event, now), action),
    ensures
        same_session(*final(snapshot), *old(snapshot)),
        final(snapshot)@ == old(snapshot)@ || final(snapshot).updated_at@ == now@,
        match event {
            WorkerEvent::Written(Some(error)) => tells(
                *final(snapshot),
                SessionPhase::Error,
                "Send failed: "@,
                error@,
            ),
            WorkerEvent::Resized(Some(error)) => tells(
                *final(snapshot),
                SessionPhase::Attention,
                "Resize request failed: "@,
                error@,
            ),
            WorkerEvent::Polled(ChildState::Ended(status)) => tells(
                *final(snapshot),
                SessionPhase::Exited,
                "Session ended with "@,
                status@,
            ),
            WorkerEvent::Polled(ChildState::Unknown(error)) => tells(
                *final(snapshot),
                SessionPhase::Error,
                "Failed to poll child process: "@,
                error@,
            ),
            _ => final(snapshot)@ == old(snapshot)@,
        },
{
    match event {
        WorkerEvent::Written(Some(error)) => joined_ends("Send failed: "@, error@),
        WorkerEvent::Resized(Some(error)) => joined_ends("Resize request failed: "@, error@),
        WorkerEvent::Polled(ChildState::Ended(status)) => joined_ends(
            "Session ended with "@,
            status@,
        ),
        WorkerEvent::Polled(ChildState::Unknown(error)) => joined_ends(
            "Failed to poll child process: "@,
            error@,
        ),
        _ => {},
    }
}

/// Whether a session is in the phase and its status line begins and ends so, with nothing
/// between.
pub open spec fn tells(s: SessionSnapshot, phase: SessionPhase, start: Seq<char>, end: Seq<char>) -> bool {
    &&& s.phase == phase
    &&& start.is_prefix_of(s.status_line@)
    &&& end.is_suffix_of(s.status_line@)
    &&& s.status_line@.len() == start.len() + end.len()
}

/// A session is live while it is being connected, is connected or needs attention, and no
/// longer once it has failed or ended.
pub proof fn live_phases(phase: SessionPhase, r: bool)
    requires
        call_ensures(SessionPhase::live, (&phase,), r),
    ensures
        r <==> !(phase == SessionPhase::Error || phase == SessionPhase::Exited),
{
}

/// A session begins to connect at the time at which it starts, under the name, the host
/// and the backend of its profile.
pub proof fn sessions_start_connecting(
    profile: &ConnectionProfile,
    r: SessionSnapshot,
    host: String,
    backend: &'static str,
)
    requires
        call_ensures(SessionSnapshot::from_profile, (profile,), r),
        call_ensures(ConnectionProfile::host_label, (profile,), host),
        call_ensures(crate::connection::ConnectionBackend::label, (profile.backend,), backend),
    ensures
        r.phase == SessionPhase::Connecting,
        r.title@ == profile.name@,
        r.subtitle@ == host@,
        r.backend@ == backend@,
        r.updated_at@ == r.started_at@,
        is_clock_label(r.started_at@),
        r.status_line@ == "Starting session..."@,
{
}

/// A local session runs from the start, and is called after its shell.
pub proof fn local_sessions_run_at_once(shell: &Option<String>, r: SessionSnapshot)
    requires
        call_ensures(local_session, (shell,), r),
    ensures
        r.phase == SessionPhase::Connected,
        r.title@ == "Local Shell"@,
        r.backend@ == "local"@,
        *shell is Some ==> r.subtitle@ == (*shell)->0@,
        *shell is None ==> r.subtitle@ == "shell"@,
        "Local shell ("@.is_prefix_of(r.status_line@),
        ") running"@.is_suffix_of(r.status_line@),
        r.status_line@.len() == "Local shell ("@.len() + r.subtitle@.len() + ") running"@.len(),
        r.updated_at@ == r.started_at@,
        is_clock_label(r.started_at@),
{
    let name = r.subtitle@;
    joined_ends("Local shell ("@, name + ") running"@);
    joined_ends("Local shell ("@ + name, ") running"@);
    assert("Local shell ("@ + (name + ") running"@) =~= "Local shell ("@ + name + ") running"@);
}

/// A password and a remote command count where more than white space is given, and are
/// taken without the white space around them.
pub proof fn blank_texts_do_not_count(
    profile: &ConnectionProfile,
    password: Option<String>,
    command: Option<String>,
)
    requires
        call_ensures(session_password, (profile,), password),
        call_ensures(session_command, (profile,), command),
    ensures
        password is Some <==> exists|i: int|
            0 <= i < profile.password@.len() && !text::is_white_space(#[trigger] profile.password@[i]),
        command is Some <==> exists|i: int|
            0 <= i < profile.remote_command@.len() && !text::is_white_space(
                #[trigger] profile.remote_command@[i],
            ),
        password matches Some(p) ==> p@ == text::trimmed(profile.password@),
        command matches Some(c) ==> c@ == text::trimmed(profile.remote_command@),
{
    text::blank_is_trimmed_away(profile.password@);
    text::blank_is_trimmed_away(profile.remote_command@);
}

/// The shell that the application's own variable names goes before any other, and on
/// Windows the user's does not count.
pub proof fn shells_in_order(
    own: Option<String>,
    user: Option<String>,
    windows: bool,
    r: String,
)
    requires
        call_ensures(choose_shell, (own, user, windows), r),
    ensures
        own matches Some(shell) ==> r@ == shell@,
        own is None && windows ==> r@ == "powershell.exe"@,
        own is None && !windows && user is Some ==> r@ == user->0@,
        own is None && !windows && user is None ==> r@ == "/bin/sh"@,
{
}

/// The sizes at the start: a local session has the columns and rows of its settings at 8
/// by 16 pixels a cell, and a terminal fills its pseudo terminal.
pub proof fn sizes_at_the_start(
    settings: &ResolvedTerminalSettings,
    pty: PtySize,
    remote: PtySize,
    terminal: TerminalSize,
)
    requires
        call_ensures(local_pty_size, (settings,), pty),
        call_ensures(remote_pty_size, (), remote),
        call_ensures(terminal_size, (pty,), terminal),
    ensures
        pty.cols == settings.initial_cols && pty.rows == settings.initial_rows,
        pty.pixel_width == 8 * settings.initial_cols,
        pty.pixel_height == 16 * settings.initial_rows,
        terminal.cols == pty.cols && terminal.rows == pty.rows,
        terminal.pixel_width == pty.pixel_width && terminal.pixel_height == pty.pixel_height,
        terminal.dpi == 96,
        remote.cols == 120 && remote.rows == 36,
        remote.pixel_width == 8 * remote.cols && remote.pixel_height == 640,
{
}

/// A terminal that was refused makes the session fail, with the reason.
pub proof fn refused_terminals_are_shown(snapshot: &mut SessionSnapshot, error: &str)
    requires
        call_ensures(on_pty_failure, (snapshot, error), ()),
    ensures
        same_session(*final(snapshot), *old(snapshot)),
        tells(*final(snapshot), SessionPhase::Error, "PTY request failed: "@, error@),
{
    joined_ends("PTY request failed: "@, error@);
}

} // verus!
