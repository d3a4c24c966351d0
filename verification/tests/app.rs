use rshell::app::{AppMsg, Effect, LocalTarget, RshellApp};
use rshell::config::{AppTheme, GlobalConfig, TerminalSettingChange, TerminalSettings};
use rshell::connection::{ConnectionBackend, ConnectionProfile, ConnectionStore};
use rshell::keys::{KeyCode, CONTROL_MASK, KEY_SUPER_R};
use rshell::panes::{Arrangement, SplitLayout, TerminalGroup, TerminalPane};
use rshell::terminal::{SessionPhase, SessionSnapshot};
use rshell::window::{live_count, needs_resize, pane_cells};
use uuid::Uuid;

fn id(n: u128) -> Uuid {
    Uuid::from_u128(n)
}

fn app() -> RshellApp {
    let mut store = ConnectionStore::default();
    store.upsert(ConnectionProfile::with_id(id(1), "alpha", "a.host"));
    store.upsert(ConnectionProfile::with_id(id(2), "beta", "b.host"));
    RshellApp::start(store, GlobalConfig::default()).0
}

fn send(app: &mut RshellApp, msg: AppMsg) -> Vec<Effect> {
    app.update(msg)
}

fn with_tab(sessions: &[u64]) -> RshellApp {
    let mut a = app();
    for n in sessions {
        send(&mut a, AppMsg::LocalLaunched(LocalTarget::NewTab, *n));
    }
    a
}

fn shutdowns(effects: &[Effect]) -> Vec<u64> {
    effects
        .iter()
        .filter_map(|e| match e {
            Effect::Shutdown(n) => Some(*n),
            _ => None,
        })
        .collect()
}

#[test]
fn starting_with_connections() {
    let (a, effects) = {
        let mut store = ConnectionStore::default();
        store.upsert(ConnectionProfile::with_id(id(5), "only", "h"));
        let mut config = GlobalConfig::default();
        config.theme = AppTheme::Dark;
        config.terminal.initial_cols = Some(80);
        RshellApp::start(store, config)
    };
    assert_eq!(a.selected_connection_id, Some(id(5)));
    assert_eq!(a.draft.name, "only");
    assert_eq!(a.toast, "Ready");
    assert!(a.groups.is_empty());
    assert!(a.visible.sidebar && !a.visible.editor);
    assert_eq!(effects.len(), 2);
    assert!(matches!(effects[0], Effect::ApplyTheme(AppTheme::Dark)));
    match &effects[1] {
        Effect::LaunchLocal(LocalTarget::Startup, settings) => {
            assert_eq!(settings.initial_cols, 80)
        }
        _ => panic!("no launch"),
    }
}

#[test]
fn starting_without_connections_adds_a_sample() {
    let (a, effects) =
        RshellApp::start_with(ConnectionStore::default(), GlobalConfig::default(), id(7));
    assert_eq!(a.store.connections.len(), 1);
    assert_eq!(a.store.connections[0].id, id(7));
    assert_eq!(a.store.connections[0].name, "Demo host");
    assert_eq!(a.store.connections[0].host, "127.0.0.1");
    assert_eq!(a.store.connections[0].note, "Sample profile");
    assert_eq!(a.selected_connection_id, Some(id(7)));
    assert!(matches!(effects[1], Effect::SaveStore { report: false }));
    assert_eq!(effects.len(), 3);
}

#[test]
fn startup_session_opens_a_tab() {
    let mut a = app();
    assert!(send(&mut a, AppMsg::LocalLaunched(LocalTarget::Startup, 1)).is_empty());
    assert_eq!(a.toast, "Local shell launched");
    assert_eq!(a.selected_group, Some(0));
    assert_eq!(a.groups[0].panes[0].name, "Local Shell");
    let mut b = app();
    send(&mut b, AppMsg::LocalFailed(LocalTarget::Startup, "no pty".into()));
    assert_eq!(b.toast, "Local shell failed: no pty");
    assert!(b.groups.is_empty());
}

#[test]
fn selecting_and_editing_a_connection() {
    let mut a = app();
    a.end_refresh();
    send(&mut a, AppMsg::SelectConnection(id(2)));
    assert_eq!(a.draft.name, "beta");
    assert!(a.dirty.draft);
    send(&mut a, AppMsg::SelectConnection(id(99)));
    assert_eq!(a.selected_connection_id, Some(id(99)));
    assert_eq!(a.draft.name, "beta");
    send(&mut a, AppMsg::SelectConnection(id(1)));
    send(&mut a, AppMsg::ToggleEditor);
    assert!(a.visible.editor);
    send(&mut a, AppMsg::DraftNameChanged(" gamma ".into()));
    send(&mut a, AppMsg::DraftFolderChanged("Lab".into()));
    send(&mut a, AppMsg::DraftHostChanged("g.host".into()));
    send(&mut a, AppMsg::DraftPortChanged(0));
    send(&mut a, AppMsg::DraftUserChanged("u".into()));
    send(&mut a, AppMsg::DraftPasswordChanged("p".into()));
    send(&mut a, AppMsg::DraftIdentityChanged("i".into()));
    send(&mut a, AppMsg::DraftCommandChanged("c".into()));
    send(&mut a, AppMsg::DraftNoteChanged("n".into()));
    send(&mut a, AppMsg::DraftBackendChanged(ConnectionBackend::WezTermSsh));
    send(&mut a, AppMsg::DraftAcceptNewHostChanged(false));
    send(&mut a, AppMsg::DraftTerminalChanged(TerminalSettingChange::Rows(50)));
    let effects = a.update_with(AppMsg::SaveDraft, id(70), id(71));
    assert_eq!(effects.len(), 1);
    assert!(matches!(effects[0], Effect::SaveStore { report: true }));
    assert!(!a.visible.editor);
    assert_eq!(a.selected_connection_id, Some(id(1)));
    let saved = a.selected_profile().unwrap();
    assert_eq!(saved.name, "gamma");
    assert_eq!(saved.host, "g.host");
    assert_eq!(saved.port, 22);
    assert_eq!(saved.folder_id, Some(id(70)));
    assert_eq!(
        (saved.user.as_str(), saved.password.as_str(), saved.identity_file.as_str()),
        ("u", "p", "i")
    );
    assert_eq!((saved.remote_command.as_str(), saved.note.as_str()), ("c", "n"));
    assert_eq!(saved.backend, ConnectionBackend::WezTermSsh);
    assert!(!saved.accept_new_host);
    assert_eq!(saved.terminal.initial_rows, Some(50));
    assert_eq!(a.draft.folder, "Lab");
    send(&mut a, AppMsg::StoreSaved);
    assert_eq!(a.toast, "Saved 2 connections");
    send(&mut a, AppMsg::StoreSaveFailed("disk full".into()));
    assert_eq!(a.toast, "Save failed: disk full");
}

#[test]
fn a_new_connection_gets_an_identifier() {
    let mut a = app();
    send(&mut a, AppMsg::NewConnection);
    assert_eq!(a.selected_connection_id, None);
    assert!(a.visible.editor && a.dirty.connections);
    assert_eq!(a.draft.name, "");
    a.update_with(AppMsg::SaveDraft, id(70), id(71));
    assert_eq!(a.selected_connection_id, Some(id(71)));
    assert_eq!(a.selected_profile().unwrap().name, "New connection");
    assert_eq!(a.store.connections.len(), 3);
}

#[test]
fn filling_the_editor_does_not_edit() {
    let mut a = app();
    let refresh = a.begin_refresh();
    assert!(refresh.draft && refresh.connections && refresh.groups && refresh.terminal);
    assert!(refresh.settings && !refresh.fill_settings);
    send(&mut a, AppMsg::DraftNameChanged("x".into()));
    assert_eq!(a.draft.name, "alpha");
    a.end_refresh();
    assert!(!a.dirty.draft && !a.updating.draft);
    send(&mut a, AppMsg::DraftNameChanged("x".into()));
    assert_eq!(a.draft.name, "x");
}

#[test]
fn deleting_connections() {
    let mut a = app();
    let effects = send(&mut a, AppMsg::DeleteSelected);
    assert_eq!(effects.len(), 1);
    assert_eq!(a.toast, "Deleted alpha");
    assert_eq!(a.selected_connection_id, Some(id(2)));
    assert_eq!(a.draft.name, "beta");
    send(&mut a, AppMsg::DeleteSelected);
    assert_eq!(a.selected_connection_id, None);
    assert_eq!(a.draft.id, None);
    assert!(a.store.connections.is_empty());
    assert!(send(&mut a, AppMsg::DeleteSelected).is_empty());
}

#[test]
fn launching_the_selected_connection() {
    let mut a = app();
    a.global_config.terminal.initial_cols = Some(80);
    a.store.connections[0].terminal.initial_rows = Some(10);
    let effects = send(&mut a, AppMsg::LaunchSelected);
    assert_eq!(a.toast, "Connecting to alpha...");
    match &effects[0] {
        Effect::LaunchProfile(profile, settings) => {
            assert_eq!(profile.id, id(1));
            assert_eq!((settings.initial_cols, settings.initial_rows), (80, 10));
        }
        _ => panic!("no launch"),
    }
    send(&mut a, AppMsg::SessionLaunched("alpha".into(), 9, Some("a.host".into())));
    assert_eq!(a.toast, "Connected to alpha");
    assert_eq!(a.sessions(), vec![9]);
    send(&mut a, AppMsg::SessionFailed("alpha: refused".into()));
    assert_eq!(a.toast, "Failed: alpha: refused");
    send(&mut a, AppMsg::NewConnection);
    assert!(send(&mut a, AppMsg::LaunchSelected).is_empty());
    assert_eq!(a.toast, "Select a connection first");
}

#[test]
fn splitting_up_to_four_panes() {
    let mut a = with_tab(&[1]);
    let effects = send(&mut a, AppMsg::SplitVertical);
    assert!(matches!(
        effects[0],
        Effect::LaunchLocal(LocalTarget::Split { horizontal: false }, _)
    ));
    send(&mut a, AppMsg::LocalLaunched(LocalTarget::Split { horizontal: false }, 2));
    assert_eq!(a.groups[0].layout, SplitLayout::VSplit);
    assert_eq!(a.groups[0].active_pane, 1);
    send(&mut a, AppMsg::LocalLaunched(LocalTarget::Split { horizontal: true }, 3));
    assert_eq!(a.groups[0].layout, SplitLayout::TopBottom3);
    send(&mut a, AppMsg::LocalLaunched(LocalTarget::Split { horizontal: true }, 4));
    assert_eq!(a.groups[0].layout, SplitLayout::Grid);
    assert!(!a.toolbar().split);
    assert!(send(&mut a, AppMsg::SplitHorizontal).is_empty());
    assert_eq!(a.toast, "Max 4 panes per tab");
    let effects = send(&mut a, AppMsg::LocalLaunched(LocalTarget::Split { horizontal: true }, 5));
    assert_eq!(shutdowns(&effects), vec![5]);
    assert_eq!(a.sessions(), vec![1, 2, 3, 4]);
    send(&mut a, AppMsg::LocalFailed(LocalTarget::Split { horizontal: true }, "e".into()));
    assert_eq!(a.toast, "Split failed: e");
    let mut none = app();
    assert!(send(&mut none, AppMsg::SplitHorizontal).is_empty());
}

#[test]
fn closing_panes_and_tabs() {
    let mut a = with_tab(&[1, 5]);
    send(&mut a, AppMsg::SelectGroup(0));
    send(&mut a, AppMsg::LocalLaunched(LocalTarget::Split { horizontal: true }, 2));
    send(&mut a, AppMsg::LocalLaunched(LocalTarget::Split { horizontal: true }, 3));
    send(&mut a, AppMsg::FocusPane(0));
    send(&mut a, AppMsg::FocusPane(9));
    assert_eq!(a.active_session(), Some(1));
    assert_eq!(shutdowns(&send(&mut a, AppMsg::ClosePane)), vec![1]);
    assert_eq!(a.groups[0].layout, SplitLayout::HSplit);
    send(&mut a, AppMsg::FocusPane(1));
    assert_eq!(shutdowns(&send(&mut a, AppMsg::ClosePane)), vec![3]);
    assert_eq!(a.groups[0].layout, SplitLayout::Single);
    assert_eq!(a.groups[0].active_pane, 0);
    assert_eq!(shutdowns(&send(&mut a, AppMsg::ClosePane)), vec![2]);
    assert_eq!(a.groups.len(), 1);
    assert_eq!(a.selected_group, Some(0));
    assert_eq!(shutdowns(&send(&mut a, AppMsg::ClosePane)), vec![5]);
    assert_eq!(a.selected_group, None);
    assert!(send(&mut a, AppMsg::ClosePane).is_empty());
}

#[test]
fn selection_of_tabs_when_closing() {
    let mut a = with_tab(&[1, 2, 3]);
    assert_eq!(a.selected_group, Some(2));
    assert_eq!(shutdowns(&send(&mut a, AppMsg::CloseGroup(0))), vec![1]);
    assert_eq!(a.selected_group, Some(1));
    send(&mut a, AppMsg::CloseGroup(1));
    assert_eq!(a.selected_group, Some(0));
    assert!(send(&mut a, AppMsg::CloseGroup(7)).is_empty());
    let mut b = with_tab(&[1, 2, 3]);
    send(&mut b, AppMsg::SelectGroup(0));
    send(&mut b, AppMsg::SelectGroup(9));
    send(&mut b, AppMsg::CloseGroup(2));
    assert_eq!(b.selected_group, Some(0));
}

#[test]
fn keys_go_to_one_pane_or_to_all() {
    let mut a = with_tab(&[1, 2]);
    send(&mut a, AppMsg::LocalLaunched(LocalTarget::Split { horizontal: true }, 3));
    let press = || AppMsg::PaneKeyPress(1, 97, Some('a'), CONTROL_MASK);
    let effects = send(&mut a, press());
    assert_eq!(effects.len(), 1);
    assert!(matches!(effects[0], Effect::KeyDown(3, KeyCode::Char('a'), m) if m.ctrl));
    assert!(send(&mut a, AppMsg::PaneKeyPress(7, 97, Some('a'), 0)).is_empty());
    send(&mut a, AppMsg::ToggleBroadcast);
    assert_eq!(a.toast, "Broadcast ON — keys sent to all sessions");
    let reached: Vec<u64> = send(&mut a, press())
        .iter()
        .map(|e| match e {
            Effect::KeyDown(n, _, _) => *n,
            _ => panic!("no key"),
        })
        .collect();
    assert_eq!(reached, vec![1, 2, 3]);
    assert!(send(&mut a, AppMsg::PaneKeyPress(1, KEY_SUPER_R, None, 0)).is_empty());
    send(&mut a, AppMsg::ToggleBroadcast);
    assert_eq!(a.toast, "Broadcast OFF");
}

#[test]
fn shutting_everything_down() {
    let mut a = with_tab(&[1, 2]);
    send(&mut a, AppMsg::LocalLaunched(LocalTarget::Split { horizontal: true }, 3));
    assert_eq!(shutdowns(&send(&mut a, AppMsg::ShutdownAll)), vec![1, 2, 3]);
    assert!(a.sessions().is_empty());
    assert_eq!(a.selected_group, None);
}

#[test]
fn pasting_the_remote_host() {
    let mut a = with_tab(&[1]);
    assert!(send(&mut a, AppMsg::PasteRemoteIp(0)).is_empty());
    assert_eq!(a.toast, "No remote host for this session");
    send(&mut a, AppMsg::SessionLaunched("x".into(), 2, Some("x.host".into())));
    let effects = send(&mut a, AppMsg::PasteRemoteIp(0));
    assert!(matches!(&effects[0], Effect::SendText(2, t) if t == "x.host"));
    let effects = send(&mut a, AppMsg::OpenInEditor(0));
    assert!(matches!(effects[0], Effect::OpenInEditor(2)));
    assert!(send(&mut a, AppMsg::OpenInEditor(4)).is_empty());
    assert!(send(&mut a, AppMsg::PasteRemoteIp(4)).is_empty());
}

#[test]
fn global_settings() {
    let mut a = app();
    a.end_refresh();
    send(&mut a, AppMsg::GlobalTerminalChanged(TerminalSettingChange::Cols(99)));
    assert_eq!(a.default_resolved_settings().initial_cols, 99);
    assert!(a.dirty.settings);
    let session = TerminalSettings { initial_cols: Some(44), ..Default::default() };
    assert_eq!(a.resolve_settings(&session).initial_cols, 44);
    let effects = send(&mut a, AppMsg::ThemeChanged(AppTheme::System));
    assert!(matches!(effects[0], Effect::ApplyTheme(AppTheme::System)));
    assert_eq!(a.global_config.theme, AppTheme::System);
    send(&mut a, AppMsg::ToggleEditor);
    send(&mut a, AppMsg::OpenGlobalSettings);
    assert!(a.visible.settings && !a.visible.editor);
    assert!(a.begin_refresh().fill_settings);
    send(&mut a, AppMsg::GlobalTerminalChanged(TerminalSettingChange::Cols(1)));
    assert_eq!(a.default_resolved_settings().initial_cols, 99);
    a.end_refresh();
    let effects = send(&mut a, AppMsg::SaveGlobalSettings);
    assert!(matches!(effects[0], Effect::SaveSettings));
    send(&mut a, AppMsg::SettingsSaved);
    assert_eq!(a.toast, "Settings saved");
    send(&mut a, AppMsg::SettingsSaveFailed("e".into()));
    assert_eq!(a.toast, "Failed to save settings: e");
}

#[test]
fn messages_without_effect() {
    let mut a = with_tab(&[1]);
    a.end_refresh();
    assert!(send(&mut a, AppMsg::RefreshSessions).is_empty());
    assert!(send(&mut a, AppMsg::ToggleFullscreen).is_empty());
    assert!(!a.dirty.terminal);
    send(&mut a, AppMsg::ToggleSidebar);
    assert!(!a.visible.sidebar && a.dirty.terminal);
    let effects = send(&mut a, AppMsg::NewLocalTab);
    assert!(matches!(effects[0], Effect::LaunchLocal(LocalTarget::NewTab, _)));
}

#[test]
fn status_line_and_tabs() {
    let mut a = with_tab(&[1, 2]);
    let phases = vec![SessionPhase::Connected, SessionPhase::Exited];
    assert_eq!(live_count(&phases), 1);
    assert_eq!(a.status_text(&None, &phases), "Sessions: 2  ·  Live: 1");
    let snapshot = Some(SessionSnapshot::starting("t", "s", "b", "00:00:00"));
    assert_eq!(
        a.status_text(&snapshot, &phases),
        "Connecting  ·  Local Shell  ·  Starting session...  ·  Panes: 1"
    );
    let labels: Vec<(String, bool)> =
        a.tab_labels().into_iter().map(|t| (t.label, t.active)).collect();
    assert_eq!(labels, vec![("Local Shell".into(), false), ("Local Shell".into(), true)]);
    a.groups[0].panes.clear();
    assert_eq!(a.tab_labels()[0].label, "Tab 1");
    let toolbar = a.toolbar();
    assert!(toolbar.connect && toolbar.split && toolbar.close_pane);
    send(&mut a, AppMsg::ShutdownAll);
    assert_eq!(a.status_text(&snapshot, &Vec::new()), "Sessions: 0  ·  Live: 0");
    assert!(!a.toolbar().split && !a.toolbar().close_pane);
    assert_eq!(a.active_session(), None);
}

#[test]
fn cells_of_panes() {
    assert_eq!(pane_cells(808, 408, 8, 16), Some((100, 25)));
    assert_eq!(pane_cells(8, 408, 8, 16), None);
    assert_eq!(pane_cells(0, 408, 8, 16), None);
    assert_eq!(pane_cells(808, 408, 0, 16), None);
    assert_eq!(pane_cells(1, 408, 3, 16), Some((65534, 25)));
    assert_eq!(pane_cells(65536 + 8 + 5, 408, 1, 16), Some((5, 25)));
    assert!(needs_resize(None, (100, 25)));
    assert!(!needs_resize(None, (0, 0)));
    assert!(needs_resize(Some((100, 25)), (100, 26)));
    assert!(!needs_resize(Some((100, 25)), (100, 25)));
}

fn pane(n: u64) -> TerminalPane {
    TerminalPane { name: "p".into(), session: n, remote_host: None }
}

fn leaves(a: &Arrangement) -> Vec<usize> {
    match a {
        Arrangement::Pane(i) => vec![*i],
        Arrangement::SideBySide(x, y) | Arrangement::Stacked(x, y) => {
            let mut all = leaves(x);
            all.extend(leaves(y));
            all
        }
    }
}

#[test]
fn every_layout_shows_every_pane() {
    let mut group = TerminalGroup::single(pane(0));
    assert!(group.fits());
    assert!(matches!(group.arrangement(), Some(Arrangement::Pane(0))));
    for n in 1..4 {
        assert!(group.can_split());
        group.add_pane(pane(n), n == 1);
        let shown = leaves(&group.arrangement().unwrap());
        assert_eq!(shown, (0..=n as usize).collect::<Vec<usize>>());
        assert_eq!(group.active_pane, n as usize);
    }
    assert!(!group.can_split());
    assert!(matches!(group.arrangement(), Some(Arrangement::Stacked(_, _))));
    assert_eq!(group.remove_pane(9), None);
    assert_eq!(group.remove_pane(0), Some(0));
    assert_eq!(group.layout, SplitLayout::TopBottom3);
    assert_eq!(group.active_pane, 2);
}

#[test]
fn arrangements_of_two_panes() {
    let mut group = TerminalGroup::single(pane(0));
    group.add_pane(pane(1), true);
    assert!(matches!(group.arrangement(), Some(Arrangement::SideBySide(_, _))));
    let mut group = TerminalGroup::single(pane(0));
    group.add_pane(pane(1), false);
    assert!(matches!(group.arrangement(), Some(Arrangement::Stacked(_, _))));
    group.remove_pane(1);
    group.remove_pane(0);
    assert!(group.arrangement().is_none());
    assert_eq!(group.active_pane, 0);
}
