//! The state of the application, and how it answers what the user does and what comes
//! back from outside.

use uuid::Uuid;
use vstd::prelude::*;
use crate::config::{
    AppTheme, GlobalConfig, ResolvedTerminalSettings, TerminalSettingChange, TerminalSettings,
};
use crate::config;
use crate::connection::{ConnectionBackend, ConnectionProfile, ConnectionStore};
use crate::connection;
use crate::draft::ConnectionDraft;
use crate::draft;
use crate::ids;
use crate::keys::{KeyCode, KeyModifiers};
use crate::keys;
use crate::panes::{TerminalGroup, TerminalPane};
use crate::panes;
use crate::text;

verus! {

/// Which parts of the window are shown.
#[derive(Debug, Clone, Copy, PartialEq, Eq, Structural)]
pub struct Visible {
    pub sidebar: bool,
    pub editor: bool,
    pub settings: bool,
}

/// Which parts of the window have to be drawn anew.
#[derive(Debug, Clone, Copy, PartialEq, Eq, Structural)]
pub struct Dirty {
    pub connections: bool,
    pub groups: bool,
    pub terminal: bool,
    pub draft: bool,
    pub settings: bool,
}

/// Which forms are just being filled, so that changes in them are not the user's.
#[derive(Debug, Clone, Copy, PartialEq, Eq, Structural)]
pub struct Updating {
    pub draft: bool,
    pub settings: bool,
}

/// The application: connections, settings, the draft in the editor, the tabs, and what
/// of the window has to be drawn anew.
#[derive(Debug)]
pub struct RshellApp {
    pub store: ConnectionStore,
    pub global_config: GlobalConfig,
    pub selected_connection_id: Option<Uuid>,
    pub draft: ConnectionDraft,
    pub groups: Vec<TerminalGroup>,
    pub selected_group: Option<usize>,
    pub toast: String,
    pub visible: Visible,
    pub broadcast_mode: bool,
    pub dirty: Dirty,
    pub updating: Updating,
}

/// `RshellApp` with its parts by their views.
pub struct AppView {
    pub store: connection::StoreView,
    pub global_config: config::GlobalConfigView,
    pub selected_connection_id: Option<Uuid>,
    pub draft: draft::DraftView,
    pub groups: Seq<panes::GroupView>,
    pub selected_group: Option<int>,
    pub toast: Seq<char>,
    pub visible: Visible,
    pub broadcast_mode: bool,
    pub dirty: Dirty,
    pub updating: Updating,
}

/// Tabs by their views.
pub open spec fn group_views(groups: Seq<TerminalGroup>) -> Seq<panes::GroupView> {
    Seq::new(groups.len(), |i: int| groups[i]@)
}

/// An optional index as an optional integer.
pub open spec fn index_view(i: Option<usize>) -> Option<int> {
    match i {
        Some(i) => Some(i as int),
        None => None,
    }
}

impl View for RshellApp {
    type V = AppView;

    open spec fn view(&self) -> AppView {
        AppView {
            store: self.store@,
            global_config: self.global_config@,
            selected_connection_id: self.selected_connection_id,
            draft: self.draft@,
            groups: group_views(self.groups@),
            selected_group: index_view(self.selected_group),
            toast: self.toast@,
            visible: self.visible,
            broadcast_mode: self.broadcast_mode,
            dirty: self.dirty,
            updating: self.updating,
        }
    }
}

/// What a local session is started for.
#[derive(Debug, Clone, Copy, PartialEq, Eq, Structural)]
pub enum LocalTarget {
    /// The tab that is there when the application starts.
    Startup,
    /// A new tab.
    NewTab,
    /// A new pane beside the others of the selected tab, or else below them.
    Split { horizontal: bool },
}

/// What the user does, and what comes back from what was started outside.
#[derive(Debug)]
pub enum AppMsg {
    SelectConnection(Uuid),
    NewConnection,
    SaveDraft,
    DeleteSelected,
    ToggleSidebar,
    ToggleEditor,
    DraftNameChanged(String),
    DraftFolderChanged(String),
    DraftHostChanged(String),
    DraftPortChanged(u16),
    DraftUserChanged(String),
    DraftPasswordChanged(String),
    DraftIdentityChanged(String),
    DraftCommandChanged(String),
    DraftNoteChanged(String),
    DraftBackendChanged(ConnectionBackend),
    DraftAcceptNewHostChanged(bool),
    LaunchSelected,
    NewLocalTab,
    SelectGroup(usize),
    CloseGroup(usize),
    SplitHorizontal,
    SplitVertical,
    ClosePane,
    FocusPane(usize),
    /// A key in a pane: the key, the character that it gives, and the modifier state.
    PaneKeyPress(usize, u32, Option<char>, u32),
    /// A session was started: its name, its number and the remote host.
    SessionLaunched(String, u64, Option<String>),
    SessionFailed(String),
    /// A local session was started.
    LocalLaunched(LocalTarget, u64),
    /// A local session could not be started.
    LocalFailed(LocalTarget, String),
    /// The connections were written.
    StoreSaved,
    /// The connections could not be written.
    StoreSaveFailed(String),
    /// The settings were written.
    SettingsSaved,
    /// The settings could not be written.
    SettingsSaveFailed(String),
    RefreshSessions,
    ShutdownAll,
    ToggleFullscreen,
    ToggleBroadcast,
    PasteRemoteIp(usize),
    OpenInEditor(usize),
    DraftTerminalChanged(TerminalSettingChange),
    GlobalTerminalChanged(TerminalSettingChange),
    ThemeChanged(AppTheme),
    OpenGlobalSettings,
    SaveGlobalSettings,
}

/// What is to be done outside, in order.
#[derive(Debug)]
pub enum Effect {
    /// Start a session for the profile.
    LaunchProfile(ConnectionProfile, ResolvedTerminalSettings),
    /// Start a local session.
    LaunchLocal(LocalTarget, ResolvedTerminalSettings),
    /// Shut the session down.
    Shutdown(u64),
    /// Send the text to the session.
    SendText(u64, String),
    /// Hand the key to the terminal of the session.
    KeyDown(u64, KeyCode, KeyModifiers),
    /// Open the text on the screen of the session in an editor.
    OpenInEditor(u64),
    /// Write the connections; where `report` is set, tell how that went.
    SaveStore { report: bool },
    /// Write the settings and tell how that went.
    SaveSettings,
    /// Make the theme that of the window.
    ApplyTheme(AppTheme),
}

/// `Effect` with its parts by their views.
pub enum EffectView {
    LaunchProfile(connection::ProfileView, config::ResolvedSettingsView),
    LaunchLocal(LocalTarget, config::ResolvedSettingsView),
    Shutdown(u64),
    SendText(u64, Seq<char>),
    KeyDown(u64, KeyCode, KeyModifiers),
    OpenInEditor(u64),
    SaveStore { report: bool },
    SaveSettings,
    ApplyTheme(AppTheme),
}

impl View for Effect {
    type V = EffectView;

    open spec fn view(&self) -> EffectView {
        match *self {
            Effect::LaunchProfile(p, s) => EffectView::LaunchProfile(p@, s@),
            Effect::LaunchLocal(t, s) => EffectView::LaunchLocal(t, s@),
            Effect::Shutdown(n) => EffectView::Shutdown(n),
            Effect::SendText(n, t) => EffectView::SendText(n, t@),
            Effect::KeyDown(n, k, m) => EffectView::KeyDown(n, k, m),
            Effect::OpenInEditor(n) => EffectView::OpenInEditor(n),
            Effect::SaveStore { report } => EffectView::SaveStore { report },
            Effect::SaveSettings => EffectView::SaveSettings,
            Effect::ApplyTheme(t) => EffectView::ApplyTheme(t),
        }
    }
}

/// Effects by their views.
pub open spec fn effect_views(effects: Seq<Effect>) -> Seq<EffectView> {
    Seq::new(effects.len(), |i: int| effects[i]@)
}

/// A state and what is to be done outside.
pub type Outcome = (AppView, Seq<EffectView>);

/// Nothing is to be done outside.
pub open spec fn no_effects() -> Seq<EffectView> {
    Seq::empty()
}

impl AppView {
    /// The settings of a session of its own, over the global ones.
    pub open spec fn session_settings(self, session: config::TerminalSettingsView) -> config::ResolvedSettingsView {
        config::resolved_settings(config::merged_settings(session, self.global_config.terminal))
    }

    /// The settings of a session without any of its own.
    pub open spec fn default_settings(self) -> config::ResolvedSettingsView {
        config::resolved_settings(self.global_config.terminal)
    }

    /// The selected connection.
    pub open spec fn selected_profile(self) -> Option<connection::ProfileView> {
        match self.selected_connection_id {
            Some(id) => connection::connection_of(self.store, id),
            None => None,
        }
    }

    /// The selected tab.
    pub open spec fn current_group(self) -> Option<panes::GroupView> {
        match self.selected_group {
            Some(i) => if 0 <= i < self.groups.len() {
                Some(self.groups[i])
            } else {
                None
            },
            None => None,
        }
    }

    /// A pane of the selected tab.
    pub open spec fn current_pane(self, index: int) -> Option<panes::PaneView> {
        match self.current_group() {
            Some(g) => if 0 <= index < g.panes.len() {
                Some(g.panes[index])
            } else {
                None
            },
            None => None,
        }
    }

    /// The state with the selected connection in the editor, where one is selected.
    pub open spec fn with_selected_draft(self) -> AppView {
        match self.selected_profile() {
            Some(p) => AppView { draft: draft::draft_of(self.store, p), ..self },
            None => self,
        }
    }

    /// The state with another text in the message line.
    pub open spec fn with_toast(self, toast: Seq<char>) -> AppView {
        AppView { toast, ..self }
    }

    /// The state with the panes to be drawn anew.
    pub open spec fn dirty_terminal(self) -> AppView {
        AppView { dirty: Dirty { terminal: true, ..self.dirty }, ..self }
    }

    /// The state with tabs and panes to be drawn anew.
    pub open spec fn dirty_tabs(self) -> AppView {
        AppView { dirty: Dirty { groups: true, terminal: true, ..self.dirty }, ..self }
    }

    /// The state with the editor to be filled anew.
    pub open spec fn dirty_draft(self) -> AppView {
        AppView { dirty: Dirty { draft: true, ..self.dirty }, ..self }
    }

    /// The state with the list of connections and the editor to be filled anew.
    pub open spec fn dirty_connections(self) -> AppView {
        AppView { dirty: Dirty { connections: true, draft: true, ..self.dirty }, ..self }
    }

    /// The state with the settings to be filled anew.
    pub open spec fn dirty_settings(self) -> AppView {
        AppView { dirty: Dirty { settings: true, ..self.dirty }, ..self }
    }

    /// The state with the editor shown or not.
    pub open spec fn with_editor(self, shown: bool) -> AppView {
        AppView { visible: Visible { editor: shown, ..self.visible }, ..self }
    }

    /// The state with another draft, unless the editor is just being filled.
    pub open spec fn with_draft(self, d: draft::DraftView) -> AppView {
        if self.updating.draft {
            self
        } else {
            AppView { draft: d, ..self }
        }
    }

    /// The state with a tab more, which is selected.
    pub open spec fn with_tab(self, pane: panes::PaneView) -> AppView {
        AppView {
            groups: self.groups.push(panes::single_group(pane)),
            selected_group: Some(self.groups.len() as int),
            ..self
        }.dirty_tabs()
    }

    /// The state with the selected tab replaced.
    pub open spec fn with_current_group(self, g: panes::GroupView) -> AppView {
        match self.selected_group {
            Some(i) => AppView { groups: self.groups.update(i, g), ..self },
            None => self,
        }
    }

    /// The numbers of the sessions in all tabs, in order.
    pub open spec fn sessions(self) -> Seq<u64> {
        all_sessions(self.groups)
    }
}

/// The pane of a local session.
pub open spec fn local_pane(session: u64) -> panes::PaneView {
    panes::PaneView { name: "Local Shell"@, session, remote_host: None }
}

/// The numbers of the sessions in a tab.
pub open spec fn group_sessions(g: panes::GroupView) -> Seq<u64> {
    Seq::new(g.panes.len(), |i: int| g.panes[i].session)
}

/// The numbers of the sessions in tabs, in order.
pub open spec fn all_sessions(groups: Seq<panes::GroupView>) -> Seq<u64>
    decreases groups.len(),
{
    if groups.len() == 0 {
        Seq::empty()
    } else {
        all_sessions(groups.drop_last()) + group_sessions(groups.last())
    }
}

/// The shutdown of each of the sessions.
pub open spec fn shutdown_each(sessions: Seq<u64>) -> Seq<EffectView> {
    Seq::new(sessions.len(), |i: int| EffectView::Shutdown(sessions[i]))
}

/// A key for each of the sessions.
pub open spec fn key_for_each(sessions: Seq<u64>, code: KeyCode, mods: KeyModifiers) -> Seq<EffectView> {
    Seq::new(sessions.len(), |i: int| EffectView::KeyDown(sessions[i], code, mods))
}

/// The connection that a store without any starts with.
pub open spec fn sample_profile(id: Uuid) -> connection::ProfileView {
    connection::ProfileView {
        note: "Sample profile"@,
        ..connection::plain_profile(id, "Demo host"@, "127.0.0.1"@)
    }
}

/// The store that the application starts with: the one that was read, with a sample in
/// it where it holds no connection.
pub open spec fn starting_store(s: connection::StoreView, fresh: Uuid) -> connection::StoreView {
    if s.connections.len() == 0 {
        connection::upserted(s, sample_profile(fresh))
    } else {
        s
    }
}

/// The application as it starts: the first connection is selected, no tab is open, and
/// everything is to be drawn. The theme is applied, a sample is written, and a local
/// session is asked for.
pub open spec fn started(
    read: connection::StoreView,
    global_config: config::GlobalConfigView,
    fresh: Uuid,
) -> Outcome {
    let store = starting_store(read, fresh);
    let v = AppView {
        store,
        global_config,
        selected_connection_id: if store.connections.len() > 0 {
            Some(store.connections[0].id)
        } else {
            None
        },
        draft: draft::empty_draft(),
        groups: Seq::empty(),
        selected_group: None,
        toast: "Ready"@,
        visible: Visible { sidebar: true, editor: false, settings: false },
        broadcast_mode: false,
        dirty: Dirty {
            connections: true,
            groups: true,
            terminal: true,
            draft: true,
            settings: true,
        },
        updating: Updating { draft: false, settings: false },
    }.with_selected_draft();
    let launch = EffectView::LaunchLocal(LocalTarget::Startup, v.default_settings());
    (
        v,
        if read.connections.len() == 0 {
            seq![
                EffectView::ApplyTheme(global_config.theme),
                EffectView::SaveStore { report: false },
                launch,
            ]
        } else {
            seq![EffectView::ApplyTheme(global_config.theme), launch]
        },
    )
}

/// The draft is saved: its connection is put into the store under the given
/// identifiers, selected and opened again.
pub open spec fn after_save_draft(v: AppView, folder: Uuid, fresh: Uuid) -> Outcome {
    let (with_folder, profile) = draft::drafted(v.draft, v.store, folder, fresh);
    let store = connection::upserted(with_folder, profile);
    (
        AppView {
            store,
            selected_connection_id: Some(profile.id),
            draft: draft::draft_of(store, profile),
            ..v
        }.with_editor(false).dirty_connections(),
        seq![EffectView::SaveStore { report: true }],
    )
}

/// The selected connection is deleted, and the first of the others selected.
pub open spec fn after_delete_selected(v: AppView) -> Outcome {
    match v.selected_profile() {
        Some(p) => {
            let store = connection::removed(v.store, p.id);
            let next = AppView {
                store,
                selected_connection_id: if store.connections.len() > 0 {
                    Some(store.connections[0].id)
                } else {
                    None
                },
                ..v
            }.with_toast("Deleted "@ + p.name).dirty_connections();
            (
                if store.connections.len() > 0 {
                    next.with_selected_draft()
                } else {
                    AppView { draft: draft::empty_draft(), ..next }
                },
                seq![EffectView::SaveStore { report: true }],
            )
        },
        None => (v, no_effects()),
    }
}

/// A session for the selected connection is asked for.
pub open spec fn after_launch_selected(v: AppView) -> Outcome {
    match v.selected_profile() {
        Some(p) => (
            v.with_toast("Connecting to "@ + p.name + "..."@),
            seq![EffectView::LaunchProfile(p, v.session_settings(p.terminal))],
        ),
        None => (v.with_toast("Select a connection first"@), no_effects()),
    }
}

/// A tab is closed and its sessions are shut down. The selection stays with its tab, or
/// goes to a neighbour.
pub open spec fn after_close_group(v: AppView, index: int) -> Outcome {
    if index < v.groups.len() {
        let groups = v.groups.remove(index);
        (
            AppView {
                groups,
                selected_group: match v.selected_group {
                    Some(i) => if groups.len() == 0 {
                        None
                    } else if i > index {
                        Some(i - 1)
                    } else if i >= groups.len() {
                        Some(groups.len() - 1)
                    } else {
                        Some(i)
                    },
                    None => None,
                },
                ..v
            }.dirty_tabs(),
            shutdown_each(group_sessions(v.groups[index])),
        )
    } else {
        (v, no_effects())
    }
}

/// A local session for one more pane of the selected tab is asked for.
pub open spec fn after_split(v: AppView, horizontal: bool) -> Outcome {
    match v.current_group() {
        Some(g) => if g.can_grow() {
            (
                v,
                seq![
                    EffectView::LaunchLocal(LocalTarget::Split { horizontal }, v.default_settings()),
                ],
            )
        } else {
            (v.with_toast("Max 4 panes per tab"@), no_effects())
        },
        None => (v, no_effects()),
    }
}

/// A local session was started. One for which the selected tab has no place any more is
/// shut down again.
pub open spec fn after_local_launched(v: AppView, target: LocalTarget, session: u64) -> Outcome {
    match target {
        LocalTarget::Startup => (
            v.with_tab(local_pane(session)).with_toast("Local shell launched"@),
            no_effects(),
        ),
        LocalTarget::NewTab => (v.with_tab(local_pane(session)), no_effects()),
        LocalTarget::Split { horizontal } => match v.current_group() {
            Some(g) => if g.can_grow() {
                (
                    v.with_current_group(
                        g.with_pane(local_pane(session), horizontal),
                    ).dirty_terminal(),
                    no_effects(),
                )
            } else {
                (v, seq![EffectView::Shutdown(session)])
            },
            None => (v, seq![EffectView::Shutdown(session)]),
        },
    }
}

/// The active pane of the selected tab is closed, and with the last one the tab.
pub open spec fn after_close_pane(v: AppView) -> Outcome {
    match v.current_group() {
        Some(g) => if g.panes.len() > 1 {
            if 0 <= g.active_pane < g.panes.len() {
                (
                    v.with_current_group(g.without_pane(g.active_pane)).dirty_terminal(),
                    seq![EffectView::Shutdown(g.panes[g.active_pane].session)],
                )
            } else {
                (v.dirty_terminal(), no_effects())
            }
        } else {
            after_close_group(v, v.selected_group->0)
        },
        None => (v, no_effects()),
    }
}

/// A key goes to the terminal of a pane, or, in broadcast mode, to those of all panes.
pub open spec fn after_key(
    v: AppView,
    pane: int,
    key: u32,
    character: Option<char>,
    state: u32,
) -> Outcome {
    (
        v,
        match keys::key_meaning(key, character) {
            Some(code) => if v.broadcast_mode {
                key_for_each(v.sessions(), code, keys::modifiers_in(state))
            } else {
                match v.current_pane(pane) {
                    Some(p) => seq![EffectView::KeyDown(p.session, code, keys::modifiers_in(state))],
                    None => no_effects(),
                }
            },
            None => no_effects(),
        },
    )
}

/// The remote host of a pane is typed into it.
pub open spec fn after_paste_remote_ip(v: AppView, pane: int) -> Outcome {
    match v.current_pane(pane) {
        Some(p) => match p.remote_host {
            Some(host) => (v, seq![EffectView::SendText(p.session, host)]),
            None => (v.with_toast("No remote host for this session"@), no_effects()),
        },
        None => (v, no_effects()),
    }
}

/// A connection is selected and opened in the editor.
pub open spec fn after_select_connection(v: AppView, id: Uuid) -> AppView {
    AppView { selected_connection_id: Some(id), ..v }.with_selected_draft().dirty_draft()
}

/// The editor is opened for a new connection.
pub open spec fn after_new_connection(v: AppView) -> AppView {
    AppView {
        selected_connection_id: None,
        draft: draft::empty_draft(),
        ..v
    }.with_editor(true).dirty_connections()
}

/// The sidebar is shown or hidden.
pub open spec fn after_toggle_sidebar(v: AppView) -> AppView {
    AppView {
        visible: Visible { sidebar: !v.visible.sidebar, ..v.visible },
        ..v
    }.dirty_terminal()
}

/// The editor is closed, or opened for the selected connection.
pub open spec fn after_toggle_editor(v: AppView) -> AppView {
    if v.visible.editor {
        v.with_editor(false)
    } else {
        v.with_selected_draft().with_editor(true).dirty_draft()
    }
}

/// A tab is selected, where there is one.
pub open spec fn after_select_group(v: AppView, index: int) -> AppView {
    if index < v.groups.len() {
        AppView { selected_group: Some(index), ..v }.dirty_terminal()
    } else {
        v
    }
}

/// A pane of the selected tab becomes active, where there is one.
pub open spec fn after_focus_pane(v: AppView, index: int) -> AppView {
    match v.current_group() {
        Some(g) => if index < g.panes.len() {
            v.with_current_group(panes::GroupView { active_pane: index, ..g })
        } else {
            v
        },
        None => v,
    }
}

/// All tabs are closed.
pub open spec fn after_shutdown(v: AppView) -> AppView {
    AppView { groups: Seq::empty(), selected_group: None, ..v }.dirty_tabs()
}

/// Keys go to all panes, or no longer do.
pub open spec fn after_toggle_broadcast(v: AppView) -> AppView {
    AppView { broadcast_mode: !v.broadcast_mode, ..v }.with_toast(
        if v.broadcast_mode {
            "Broadcast OFF"@
        } else {
            "Broadcast ON — keys sent to all sessions"@
        },
    )
}

/// A global terminal setting is changed, unless the form is just being filled.
pub open spec fn after_global_change(v: AppView, change: TerminalSettingChange) -> AppView {
    if v.updating.settings {
        v
    } else {
        AppView {
            global_config: config::GlobalConfigView {
                terminal: config::changed_settings(v.global_config.terminal, change),
                ..v.global_config
            },
            ..v
        }.dirty_settings()
    }
}

/// Another theme is chosen.
pub open spec fn after_theme(v: AppView, theme: AppTheme) -> AppView {
    AppView {
        global_config: config::GlobalConfigView { theme, ..v.global_config },
        ..v
    }.dirty_settings()
}

/// The settings are shown or hidden, and the editor is closed.
pub open spec fn after_open_settings(v: AppView) -> AppView {
    AppView {
        visible: Visible { editor: false, settings: !v.visible.settings, ..v.visible },
        ..v
    }.dirty_settings()
}

/// The draft after a message by which it is edited; none for other messages.
pub open spec fn edited_draft(d: draft::DraftView, msg: AppMsg) -> Option<draft::DraftView> {
    match msg {
        AppMsg::DraftNameChanged(value) => Some(draft::DraftView { name: value@, ..d }),
        AppMsg::DraftFolderChanged(value) => Some(draft::DraftView { folder: value@, ..d }),
        AppMsg::DraftHostChanged(value) => Some(draft::DraftView { host: value@, ..d }),
        AppMsg::DraftPortChanged(value) => Some(draft::DraftView { port: value, ..d }),
        AppMsg::DraftUserChanged(value) => Some(draft::DraftView { user: value@, ..d }),
        AppMsg::DraftPasswordChanged(value) => Some(draft::DraftView { password: value@, ..d }),
        AppMsg::DraftIdentityChanged(value) => Some(draft::DraftView { identity_file: value@, ..d }),
        AppMsg::DraftCommandChanged(value) => Some(draft::DraftView { remote_command: value@, ..d }),
        AppMsg::DraftNoteChanged(value) => Some(draft::DraftView { note: value@, ..d }),
        AppMsg::DraftBackendChanged(value) => Some(draft::DraftView { backend: value, ..d }),
        AppMsg::DraftAcceptNewHostChanged(value) => Some(draft::DraftView { accept_new_host: value, ..d }),
        AppMsg::DraftTerminalChanged(change) => Some(
            draft::DraftView { terminal: config::changed_settings(d.terminal, change), ..d },
        ),
        _ => None,
    }
}

/// What the message line says after a message that only tells how something went; none
/// for other messages. `connections` is the number of connections.
pub open spec fn notice(connections: nat, msg: AppMsg) -> Option<Seq<char>> {
    match msg {
        AppMsg::SessionFailed(error) => Some("Failed: "@ + error@),
        AppMsg::LocalFailed(LocalTarget::Split { .. }, error) => Some("Split failed: "@ + error@),
        AppMsg::LocalFailed(_, error) => Some("Local shell failed: "@ + error@),
        AppMsg::StoreSaved => Some("Saved "@ + text::decimal(connections) + " connections"@),
        AppMsg::StoreSaveFailed(error) => Some("Save failed: "@ + error@),
        AppMsg::SettingsSaved => Some("Settings saved"@),
        AppMsg::SettingsSaveFailed(error) => Some("Failed to save settings: "@ + error@),
        _ => None,
    }
}

/// What a message that neither edits the draft nor only tells how something went does
/// to the state, and what is to be done outside.
pub open spec fn after_request(v: AppView, msg: AppMsg, folder: Uuid, fresh: Uuid) -> Outcome {
    match msg {
        AppMsg::SelectConnection(id) => (after_select_connection(v, id), no_effects()),
        AppMsg::NewConnection => (after_new_connection(v), no_effects()),
        AppMsg::SaveDraft => after_save_draft(v, folder, fresh),
        AppMsg::DeleteSelected => after_delete_selected(v),
        AppMsg::ToggleSidebar => (after_toggle_sidebar(v), no_effects()),
        AppMsg::ToggleEditor => (after_toggle_editor(v), no_effects()),
        AppMsg::LaunchSelected => after_launch_selected(v),
        AppMsg::NewLocalTab => (
            v,
            seq![EffectView::LaunchLocal(LocalTarget::NewTab, v.default_settings())],
        ),
        AppMsg::SelectGroup(index) => (after_select_group(v, index as int), no_effects()),
        AppMsg::CloseGroup(index) => after_close_group(v, index as int),
        AppMsg::SplitHorizontal => after_split(v, true),
        AppMsg::SplitVertical => after_split(v, false),
        AppMsg::ClosePane => after_close_pane(v),
        AppMsg::FocusPane(index) => (after_focus_pane(v, index as int), no_effects()),
        AppMsg::PaneKeyPress(pane, key, character, state) => after_key(
            v,
            pane as int,
            key,
            character,
            state,
        ),
        AppMsg::SessionLaunched(name, session, remote_host) => (
            v.with_tab(
                panes::PaneView {
                    name: name@,
                    session,
                    remote_host: config::text_view(remote_host),
                },
            ).with_toast("Connected to "@ + name@),
            no_effects(),
        ),
        AppMsg::LocalLaunched(target, session) => after_local_launched(v, target, session),
        AppMsg::ShutdownAll => (after_shutdown(v), shutdown_each(v.sessions())),
        AppMsg::ToggleBroadcast => (after_toggle_broadcast(v), no_effects()),
        AppMsg::PasteRemoteIp(pane) => after_paste_remote_ip(v, pane as int),
        AppMsg::OpenInEditor(pane) => (
            v,
            match v.current_pane(pane as int) {
                Some(p) => seq![EffectView::OpenInEditor(p.session)],
                None => no_effects(),
            },
        ),
        AppMsg::GlobalTerminalChanged(change) => (after_global_change(v, change), no_effects()),
        AppMsg::ThemeChanged(theme) => (
            after_theme(v, theme),
            seq![EffectView::ApplyTheme(theme)],
        ),
        AppMsg::OpenGlobalSettings => (after_open_settings(v), no_effects()),
        AppMsg::SaveGlobalSettings => (v, seq![EffectView::SaveSettings]),
        _ => (v, no_effects()),
    }
}

/// What a message does to the state, and what is to be done outside. `folder` and
/// `fresh` are the identifiers that a new folder and a new connection get.
pub open spec fn after(v: AppView, msg: AppMsg, folder: Uuid, fresh: Uuid) -> Outcome {
    match edited_draft(v.draft, msg) {
        Some(d) => (v.with_draft(d), no_effects()),
        None => match notice(v.store.connections.len(), msg) {
            Some(line) => (v.with_toast(line), no_effects()),
            None => after_request(v, msg, folder, fresh),
        },
    }
}

impl RshellApp {
    /// The application as it starts with the connections and settings that were read, and
    /// what is to be done outside. A sample connection gets an identifier of its own.
    pub fn start(store: ConnectionStore, global_config: GlobalConfig) -> (r: (Self, Vec<Effect>))
        ensures
            exists|fresh: Uuid|
                (r.0@, effect_views(r.1@)) == #[trigger] started(store@, global_config@, fresh),
    {
        RshellApp::start_with(store, global_config, ids::new_id())
    }

    /// `start` with the identifier that a sample connection gets.
    pub fn start_with(store: ConnectionStore, global_config: GlobalConfig, fresh: Uuid) -> (r: (
        Self,
        Vec<Effect>,
    ))
        ensures
            (r.0@, effect_views(r.1@)) == started(store@, global_config@, fresh),
    {
        let ghost read = store@;
        let mut store = store;
        let mut effects: Vec<Effect> = Vec::new();
        effects.push(Effect::ApplyTheme(global_config.theme));
        if store.connections.len() == 0 {
            let mut sample = ConnectionProfile::with_id(fresh, "Demo host", "127.0.0.1");
            sample.note = "Sample profile".to_owned();
            store.upsert(sample);
            effects.push(Effect::SaveStore { report: false });
        }
        let selected_connection_id = if store.connections.len() > 0 {
            Some(store.connections[0].id)
        } else {
            None
        };
        let groups: Vec<TerminalGroup> = Vec::new();
        let mut app = RshellApp {
            store,
            global_config,
            selected_connection_id,
            draft: ConnectionDraft::empty(),
            groups,
            selected_group: None,
            toast: "Ready".to_owned(),
            visible: Visible { sidebar: true, editor: false, settings: false },
            broadcast_mode: false,
            dirty: Dirty {
                connections: true,
                groups: true,
                terminal: true,
                draft: true,
                settings: true,
            },
            updating: Updating { draft: false, settings: false },
        };
        assert(app@.groups =~= Seq::empty());
        app.load_draft_from_selection();
        let settings = app.default_resolved_settings();
        effects.push(Effect::LaunchLocal(LocalTarget::Startup, settings));
        assert(effect_views(effects@) =~= started(read, global_config@, fresh).1);
        (app, effects)
    }
}

impl RshellApp {
    /// The settings of a session of its own, over the global ones.
    pub fn resolve_settings(&self, session: &TerminalSettings) -> (r: ResolvedTerminalSettings)
        ensures
            r@ == self@.session_settings(session@),
    {
        session.merge_over(&self.global_config.terminal).resolve()
    }

    /// The settings of a session without any of its own.
    pub fn default_resolved_settings(&self) -> (r: ResolvedTerminalSettings)
        ensures
            r@ == self@.default_settings(),
    {
        self.global_config.terminal.resolve()
    }

    /// The selected connection.
    pub fn selected_profile(&self) -> (r: Option<&ConnectionProfile>)
        ensures
            connection::optional_profile(r) == self@.selected_profile(),
    {
        match self.selected_connection_id {
            Some(id) => self.store.connection(id),
            None => None,
        }
    }

    /// The selected tab.
    pub fn current_group(&self) -> (r: Option<&TerminalGroup>)
        ensures
            match r {
                Some(g) => self@.current_group() == Some(g@),
                None => self@.current_group() is None,
            },
    {
        match self.selected_group {
            Some(i) => {
                if i < self.groups.len() {
                    Some(&self.groups[i])
                } else {
                    None
                }
            },
            None => None,
        }
    }

    /// A pane of the selected tab.
    fn current_pane(&self, index: usize) -> (r: Option<&TerminalPane>)
        ensures
            match r {
                Some(p) => self@.current_pane(index as int) == Some(p@),
                None => self@.current_pane(index as int) is None,
            },
    {
        match self.current_group() {
            Some(g) => {
                if index < g.panes.len() {
                    Some(&g.panes[index])
                } else {
                    None
                }
            },
            None => None,
        }
    }

    /// Opens the selected connection, where there is one, in the editor.
    fn load_draft_from_selection(&mut self)
        ensures
            final(self)@ == old(self)@.with_selected_draft(),
    {
        let loaded = match self.selected_profile() {
            Some(profile) => Some(ConnectionDraft::from_profile(&self.store, profile)),
            None => None,
        };
        if let Some(draft) = loaded {
            self.draft = draft;
        }
    }

    fn push_tab(&mut self, pane: TerminalPane)
        ensures
            final(self)@ == old(self)@.with_tab(pane@),
    {
        let ghost before = self@;
        let group = TerminalGroup::single(pane);
        let ghost view = group@;
        self.groups.push(group);
        assert(group_views(self.groups@) =~= before.groups.push(view));
        self.selected_group = Some(self.groups.len() - 1);
        self.dirty = Dirty { groups: true, terminal: true, ..self.dirty };
    }

    fn save_draft(&mut self, folder: Uuid, fresh: Uuid) -> (effects: Vec<Effect>)
        ensures
            final(self)@ == after_save_draft(old(self)@, folder, fresh).0,
            effect_views(effects@) == after_save_draft(old(self)@, folder, fresh).1,
    {
        let draft = self.draft.clone();
        let profile = draft.into_profile_with(&mut self.store, folder, fresh);
        self.selected_connection_id = Some(profile.id);
        self.store.upsert(profile.clone());
        self.draft = ConnectionDraft::from_profile(&self.store, &profile);
        self.visible.editor = false;
        self.dirty = Dirty { connections: true, draft: true, ..self.dirty };
        one_effect(Effect::SaveStore { report: true })
    }

    fn delete_selected(&mut self) -> (effects: Vec<Effect>)
        ensures
            final(self)@ == after_delete_selected(old(self)@).0,
            effect_views(effects@) == after_delete_selected(old(self)@).1,
    {
        let id = match self.selected_connection_id {
            Some(id) => id,
            None => {
                return no_effect();
            },
        };
        proof {
            crate::seqs::first_index_found(
                self@.store.connections,
                connection::profile_has_id(id),
            );
        }
        let removed = match self.store.remove(id) {
            Some(removed) => removed,
            None => {
                return no_effect();
            },
        };
        self.toast = text::joined("Deleted ", removed.name.as_str());
        self.selected_connection_id =
        if self.store.connections.len() > 0 {
            Some(self.store.connections[0].id)
        } else {
            None
        };
        if self.selected_connection_id.is_some() {
            self.load_draft_from_selection();
        } else {
            self.draft = ConnectionDraft::empty();
        }
        self.dirty = Dirty { connections: true, draft: true, ..self.dirty };
        one_effect(Effect::SaveStore { report: true })
    }

    fn launch_selected(&mut self) -> (effects: Vec<Effect>)
        ensures
            final(self)@ == after_launch_selected(old(self)@).0,
            effect_views(effects@) == after_launch_selected(old(self)@).1,
    {
        let profile = match self.selected_profile() {
            Some(profile) => profile.clone(),
            None => {
                self.toast = "Select a connection first".to_owned();
                return no_effect();
            },
        };
        let settings = self.resolve_settings(&profile.terminal);
        let line = text::joined("Connecting to ", profile.name.as_str());
        self.toast = text::joined(line.as_str(), "...");
        one_effect(Effect::LaunchProfile(profile, settings))
    }

    fn close_group(&mut self, index: usize) -> (effects: Vec<Effect>)
        ensures
            final(self)@ == after_close_group(old(self)@, index as int).0,
            effect_views(effects@) == after_close_group(old(self)@, index as int).1,
    {
        if index >= self.groups.len() {
            return no_effect();
        }
        let ghost before = self@;
        let effects = shutdown_group(&self.groups[index]);
        let _ = self.groups.remove(index);
        assert(group_views(self.groups@) =~= before.groups.remove(index as int));
        self.selected_group =
        if self.groups.len() == 0 {
            None
        } else if let Some(selected) = self.selected_group {
            if selected > index {
                Some(selected - 1)
            } else if selected >= self.groups.len() {
                Some(self.groups.len() - 1)
            } else {
                Some(selected)
            }
        } else {
            None
        };
        self.dirty = Dirty { groups: true, terminal: true, ..self.dirty };
        effects
    }

    fn split(&mut self, horizontal: bool) -> (effects: Vec<Effect>)
        ensures
            final(self)@ == after_split(old(self)@, horizontal).0,
            effect_views(effects@) == after_split(old(self)@, horizontal).1,
    {
        let can_split = match self.current_group() {
            Some(group) => group.can_split(),
            None => {
                return no_effect();
            },
        };
        if can_split {
            let settings = self.default_resolved_settings();
            one_effect(Effect::LaunchLocal(LocalTarget::Split { horizontal }, settings))
        } else {
            self.toast = "Max 4 panes per tab".to_owned();
            no_effect()
        }
    }

    fn local_launched(&mut self, target: LocalTarget, session: u64) -> (effects: Vec<Effect>)
        ensures
            final(self)@ == after_local_launched(
                old(self)@,
                target,
                session,
            ).0,
            effect_views(effects@) == after_local_launched(
                old(self)@,
                target,
                session,
            ).1,
    {
        let pane = TerminalPane { name: "Local Shell".to_owned(), session, remote_host: None };
        match target {
            LocalTarget::Startup => {
                self.push_tab(pane);
                self.toast = "Local shell launched".to_owned();
                no_effect()
            },
            LocalTarget::NewTab => {
                self.push_tab(pane);
                no_effect()
            },
            LocalTarget::Split { horizontal } => {
                let room = match self.current_group() {
                    Some(group) => group.can_split(),
                    None => false,
                };
                if !room {
                    return one_effect(Effect::Shutdown(session));
                }
                let ghost before = self@;
                let i = match self.selected_group {
                    Some(i) => i,
                    None => {
                        return no_effect();
                    },
                };
                let ghost view = pane@;
                self.groups[i].add_pane(pane, horizontal);
                assert(group_views(self.groups@) =~= before.groups.update(
                    i as int,
                    before.groups[i as int].with_pane(view, horizontal),
                ));
                self.dirty.terminal = true;
                no_effect()
            },
        }
    }

    fn close_pane(&mut self) -> (effects: Vec<Effect>)
        ensures
            final(self)@ == after_close_pane(old(self)@).0,
            effect_views(effects@) == after_close_pane(old(self)@).1,
    {
        let several = match self.current_group() {
            Some(group) => group.panes.len() > 1,
            None => {
                return no_effect();
            },
        };
        let i = match self.selected_group {
            Some(i) => i,
            None => {
                return no_effect();
            },
        };
        if !several {
            return self.close_group(i);
        }
        let ghost before = self@;
        let active = self.groups[i].active_pane;
        let session = self.groups[i].remove_pane(active);
        self.dirty.terminal = true;
        match session {
            Some(session) => {
                assert(group_views(self.groups@) =~= before.groups.update(
                    i as int,
                    before.groups[i as int].without_pane(active as int),
                ));
                one_effect(Effect::Shutdown(session))
            },
            None => {
                assert(group_views(self.groups@) =~= before.groups);
                no_effect()
            },
        }
    }

    fn focus_pane(&mut self, index: usize)
        ensures
            final(self)@ == after_focus_pane(old(self)@, index as int),
    {
        let ghost before = self@;
        if let Some(i) = self.selected_group {
            if i < self.groups.len() && index < self.groups[i].panes.len() {
                self.groups[i].active_pane = index;
                assert(group_views(self.groups@) =~= before.groups.update(
                    i as int,
                    panes::GroupView { active_pane: index as int, ..before.groups[i as int] },
                ));
            }
        }
    }

    /// The numbers of the sessions in all tabs, in order.
    pub fn sessions(&self) -> (r: Vec<u64>)
        ensures
            r@ == self@.sessions(),
    {
        let ghost views = group_views(self.groups@);
        let mut r: Vec<u64> = Vec::new();
        let mut i: usize = 0;
        assert(views.take(0) =~= Seq::empty());
        while i < self.groups.len()
            invariant
                views == group_views(self.groups@),
                i <= self.groups@.len(),
                r@ == all_sessions(views.take(i as int)),
            decreases self.groups@.len() - i,
        {
            let ghost before = r@;
            let ghost g = views[i as int];
            let mut k: usize = 0;
            assert(group_sessions(g).take(0) =~= Seq::empty());
            while k < self.groups[i].panes.len()
                invariant
                    i < self.groups@.len(),
                    g == self.groups@[i as int]@,
                    k <= g.panes.len(),
                    r@ == before + group_sessions(g).take(k as int),
                decreases g.panes.len() - k,
            {
                r.push(self.groups[i].panes[k].session);
                assert(r@ =~= before + group_sessions(g).take(k + 1));
                k = k + 1;
            }
            assert(group_sessions(g).take(k as int) =~= group_sessions(g));
            assert(views.take(i + 1).drop_last() =~= views.take(i as int));
            i = i + 1;
        }
        assert(views.take(i as int) =~= views);
        r
    }

    fn key_press(&self, pane: usize, key: u32, character: Option<char>, state: u32) -> (effects:
        Vec<Effect>)
        ensures
            (self@, effect_views(effects@)) == after_key(
                self@,
                pane as int,
                key,
                character,
                state,
            ),
    {
        let (code, mods) = match keys::key_press(key, character, state) {
            Some(press) => press,
            None => {
                return no_effect();
            },
        };
        if self.broadcast_mode {
            let sessions = self.sessions();
            let mut effects: Vec<Effect> = Vec::new();
            let mut i: usize = 0;
            while i < sessions.len()
                invariant
                    i <= sessions@.len(),
                    effects@.len() == i,
                    forall|j: int|
                        0 <= j < i ==> (#[trigger] effects@[j])@ == EffectView::KeyDown(
                            sessions@[j],
                            code,
                            mods,
                        ),
                decreases sessions@.len() - i,
            {
                effects.push(Effect::KeyDown(sessions[i], code, mods));
                i = i + 1;
            }
            assert(effect_views(effects@) =~= key_for_each(sessions@, code, mods));
            effects
        } else {
            match self.current_pane(pane) {
                Some(target) => one_effect(Effect::KeyDown(target.session, code, mods)),
                None => no_effect(),
            }
        }
    }

    fn shutdown_all(&mut self) -> (effects: Vec<Effect>)
        ensures
            final(self)@ == after_shutdown(old(self)@),
            effect_views(effects@) == shutdown_each(old(self)@.sessions()),
    {
        let sessions = self.sessions();
        let effects = shutdowns(&sessions);
        self.groups = Vec::new();
        assert(group_views(self.groups@) =~= Seq::empty());
        self.selected_group = None;
        self.dirty = Dirty { groups: true, terminal: true, ..self.dirty };
        effects
    }

    fn paste_remote_ip(&mut self, pane: usize) -> (effects: Vec<Effect>)
        ensures
            final(self)@ == after_paste_remote_ip(
                old(self)@,
                pane as int,
            ).0,
            effect_views(effects@) == after_paste_remote_ip(
                old(self)@,
                pane as int,
            ).1,
    {
        let target = match self.current_pane(pane) {
            Some(target) => match &target.remote_host {
                Some(host) => Some((target.session, host.clone())),
                None => None,
            },
            None => {
                return no_effect();
            },
        };
        match target {
            Some((session, host)) => one_effect(Effect::SendText(session, host)),
            None => {
                self.toast = "No remote host for this session".to_owned();
                no_effect()
            },
        }
    }

    fn say(&mut self, line: String)
        ensures
            final(self)@ == old(self)@.with_toast(line@),
    {
        self.toast = line;
    }

    fn set_draft(&mut self, draft: ConnectionDraft)
        ensures
            final(self)@ == old(self)@.with_draft(draft@),
    {
        if !self.updating.draft {
            self.draft = draft;
        }
    }

    fn select_connection(&mut self, id: Uuid)
        ensures
            final(self)@ == after_select_connection(old(self)@, id),
    {
        self.selected_connection_id = Some(id);
        self.load_draft_from_selection();
        self.dirty.draft = true;
    }

    fn new_connection(&mut self)
        ensures
            final(self)@ == after_new_connection(old(self)@),
    {
        self.selected_connection_id = None;
        self.draft = ConnectionDraft::empty();
        self.visible.editor = true;
        self.dirty = Dirty { connections: true, draft: true, ..self.dirty };
    }

    fn toggle_sidebar(&mut self)
        ensures
            final(self)@ == after_toggle_sidebar(old(self)@),
    {
        self.visible.sidebar = !self.visible.sidebar;
        self.dirty.terminal = true;
    }

    fn toggle_editor(&mut self)
        ensures
            final(self)@ == after_toggle_editor(old(self)@),
    {
        if self.visible.editor {
            self.visible.editor = false;
        } else {
            self.load_draft_from_selection();
            self.visible.editor = true;
            self.dirty.draft = true;
        }
    }

    fn select_group(&mut self, index: usize)
        ensures
            final(self)@ == after_select_group(old(self)@, index as int),
    {
        if index < self.groups.len() {
            self.selected_group = Some(index);
            self.dirty.terminal = true;
        }
    }

    fn toggle_broadcast(&mut self)
        ensures
            final(self)@ == after_toggle_broadcast(old(self)@),
    {
        self.broadcast_mode = !self.broadcast_mode;
        self.toast =
        if self.broadcast_mode {
            "Broadcast ON — keys sent to all sessions".to_owned()
        } else {
            "Broadcast OFF".to_owned()
        };
    }

    fn change_global_terminal(&mut self, change: TerminalSettingChange)
        ensures
            final(self)@ == after_global_change(old(self)@, change),
    {
        if !self.updating.settings {
            self.global_config.terminal.apply(change);
            self.dirty.settings = true;
        }
    }

    fn change_theme(&mut self, theme: AppTheme)
        ensures
            final(self)@ == after_theme(old(self)@, theme),
    {
        self.global_config.theme = theme;
        self.dirty.settings = true;
    }

    fn open_global_settings(&mut self)
        ensures
            final(self)@ == after_open_settings(old(self)@),
    {
        self.visible = Visible { editor: false, settings: !self.visible.settings, ..self.visible };
        self.dirty.settings = true;
    }

    /// Takes a message into account; gives what is to be done outside. A new folder and a
    /// new connection get identifiers of their own.
    pub fn update(&mut self, msg: AppMsg) -> (effects: Vec<Effect>)
        ensures
            exists|folder: Uuid, fresh: Uuid|
                (final(self)@, effect_views(effects@)) == #[trigger] after(
                    old(self)@,
                    msg,
                    folder,
                    fresh,
                ),
    {
        let folder = ids::new_id();
        let fresh = ids::new_id();
        self.update_with(msg, folder, fresh)
    }

    /// Edits the draft, unless the editor is just being filled; gives the message back
    /// where it does not edit the draft.
    fn edit_draft(&mut self, msg: AppMsg) -> (rest: Option<AppMsg>)
        ensures
            match edited_draft(old(self)@.draft, msg) {
                Some(d) => final(self)@ == old(self)@.with_draft(d) && rest is None,
                None => final(self)@ == old(self)@ && rest == Some(msg),
            },
    {
        let mut draft = self.draft.clone();
        match msg {
            AppMsg::DraftNameChanged(value) => draft.name = value,
            AppMsg::DraftFolderChanged(value) => draft.folder = value,
            AppMsg::DraftHostChanged(value) => draft.host = value,
            AppMsg::DraftPortChanged(value) => draft.port = value,
            AppMsg::DraftUserChanged(value) => draft.user = value,
            AppMsg::DraftPasswordChanged(value) => draft.password = value,
            AppMsg::DraftIdentityChanged(value) => draft.identity_file = value,
            AppMsg::DraftCommandChanged(value) => draft.remote_command = value,
            AppMsg::DraftNoteChanged(value) => draft.note = value,
            AppMsg::DraftBackendChanged(value) => draft.backend = value,
            AppMsg::DraftAcceptNewHostChanged(value) => draft.accept_new_host = value,
            AppMsg::DraftTerminalChanged(change) => draft.terminal.apply(change),
            other => {
                return Some(other);
            },
        }
        self.set_draft(draft);
        None
    }

    /// Tells how something went; gives the message back where it does not tell that.
    fn announce(&mut self, msg: AppMsg) -> (rest: Option<AppMsg>)
        ensures
            match notice(old(self)@.store.connections.len(), msg) {
                Some(line) => final(self)@ == old(self)@.with_toast(line) && rest is None,
                None => final(self)@ == old(self)@ && rest == Some(msg),
            },
    {
        let line = match msg {
            AppMsg::SessionFailed(error) => text::joined("Failed: ", error.as_str()),
            AppMsg::LocalFailed(target, error) => match target {
                LocalTarget::Split { .. } => text::joined("Split failed: ", error.as_str()),
                _ => text::joined("Local shell failed: ", error.as_str()),
            },
            AppMsg::StoreSaved => {
                let count = text::decimal_of(self.store.connections.len() as u64);
                let start = text::joined("Saved ", count.as_str());
                text::joined(start.as_str(), " connections")
            },
            AppMsg::StoreSaveFailed(error) => text::joined("Save failed: ", error.as_str()),
            AppMsg::SettingsSaved => "Settings saved".to_owned(),
            AppMsg::SettingsSaveFailed(error) => {
                text::joined("Failed to save settings: ", error.as_str())
            },
            other => {
                return Some(other);
            },
        };
        self.say(line);
        None
    }

    fn serve(&mut self, msg: AppMsg, folder: Uuid, fresh: Uuid) -> (effects: Vec<Effect>)
        ensures
            final(self)@ == after_request(old(self)@, msg, folder, fresh).0,
            effect_views(effects@) == after_request(old(self)@, msg, folder, fresh).1,
    {
        match msg {
            AppMsg::SelectConnection(id) => {
                self.select_connection(id);
                no_effect()
            },
            AppMsg::NewConnection => {
                self.new_connection();
                no_effect()
            },
            AppMsg::SaveDraft => self.save_draft(folder, fresh),
            AppMsg::DeleteSelected => self.delete_selected(),
            AppMsg::ToggleSidebar => {
                self.toggle_sidebar();
                no_effect()
            },
            AppMsg::ToggleEditor => {
                self.toggle_editor();
                no_effect()
            },
            AppMsg::LaunchSelected => self.launch_selected(),
            AppMsg::NewLocalTab => {
                let settings = self.default_resolved_settings();
                one_effect(Effect::LaunchLocal(LocalTarget::NewTab, settings))
            },
            AppMsg::SelectGroup(index) => {
                self.select_group(index);
                no_effect()
            },
            AppMsg::CloseGroup(index) => self.close_group(index),
            AppMsg::SplitHorizontal => self.split(true),
            AppMsg::SplitVertical => self.split(false),
            AppMsg::ClosePane => self.close_pane(),
            AppMsg::FocusPane(index) => {
                self.focus_pane(index);
                no_effect()
            },
            AppMsg::PaneKeyPress(pane, key, character, state) => self.key_press(
                pane,
                key,
                character,
                state,
            ),
            AppMsg::SessionLaunched(name, session, remote_host) => {
                let line = text::joined("Connected to ", name.as_str());
                self.push_tab(TerminalPane { name, session, remote_host });
                self.say(line);
                no_effect()
            },
            AppMsg::LocalLaunched(target, session) => self.local_launched(target, session),
            AppMsg::ShutdownAll => self.shutdown_all(),
            AppMsg::ToggleBroadcast => {
                self.toggle_broadcast();
                no_effect()
            },
            AppMsg::PasteRemoteIp(pane) => self.paste_remote_ip(pane),
            AppMsg::OpenInEditor(pane) => match self.current_pane(pane) {
                Some(target) => one_effect(Effect::OpenInEditor(target.session)),
                None => no_effect(),
            },
            AppMsg::GlobalTerminalChanged(change) => {
                self.change_global_terminal(change);
                no_effect()
            },
            AppMsg::ThemeChanged(theme) => {
                self.change_theme(theme);
                one_effect(Effect::ApplyTheme(theme))
            },
            AppMsg::OpenGlobalSettings => {
                self.open_global_settings();
                no_effect()
            },
            AppMsg::SaveGlobalSettings => one_effect(Effect::SaveSettings),
            _ => no_effect(),
        }
    }

    /// `update` with the identifiers that a new folder and a new connection get.
    pub fn update_with(&mut self, msg: AppMsg, folder: Uuid, fresh: Uuid) -> (effects: Vec<Effect>)
        ensures
            final(self)@ == after(old(self)@, msg, folder, fresh).0,
            effect_views(effects@) == after(old(self)@, msg, folder, fresh).1,
    {
        match self.edit_draft(msg) {
            None => no_effect(),
            Some(msg) => match self.announce(msg) {
                None => no_effect(),
                Some(msg) => self.serve(msg, folder, fresh),
            },
        }
    }
}

fn no_effect() -> (effects: Vec<Effect>)
    ensures
        effect_views(effects@) == no_effects(),
{
    let effects: Vec<Effect> = Vec::new();
    assert(effect_views(effects@) =~= no_effects());
    effects
}

fn one_effect(effect: Effect) -> (effects: Vec<Effect>)
    ensures
        effect_views(effects@) == seq![effect@],
{
    let ghost view = effect@;
    let mut effects: Vec<Effect> = Vec::new();
    effects.push(effect);
    assert(effect_views(effects@) =~= seq![view]);
    effects
}

fn shutdowns(sessions: &Vec<u64>) -> (effects: Vec<Effect>)
    ensures
        effect_views(effects@) == shutdown_each(sessions@),
{
    let mut effects: Vec<Effect> = Vec::new();
    let mut i: usize = 0;
    while i < sessions.len()
        invariant
            i <= sessions@.len(),
            effects@.len() == i,
            forall|j: int|
                0 <= j < i ==> (#[trigger] effects@[j])@ == EffectView::Shutdown(sessions@[j]),
        decreases sessions@.len() - i,
    {
        effects.push(Effect::Shutdown(sessions[i]));
        i = i + 1;
    }
    assert(effect_views(effects@) =~= shutdown_each(sessions@));
    effects
}

fn shutdown_group(group: &TerminalGroup) -> (effects: Vec<Effect>)
    ensures
        effect_views(effects@) == shutdown_each(group_sessions(group@)),
{
    let mut sessions: Vec<u64> = Vec::new();
    let mut i: usize = 0;
    while i < group.panes.len()
        invariant
            i <= group.panes@.len(),
            sessions@ == group_sessions(group@).take(i as int),
        decreases group.panes@.len() - i,
    {
        sessions.push(group.panes[i].session);
        assert(sessions@ =~= group_sessions(group@).take(i + 1));
        i = i + 1;
    }
    assert(group_sessions(group@).take(i as int) =~= group_sessions(group@));
    shutdowns(&sessions)
}

} // verus!
