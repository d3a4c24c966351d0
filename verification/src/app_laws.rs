//! What holds of the application in every state and for every message.

use uuid::Uuid;
use vstd::prelude::*;
use vstd::seq_lib::*;
use crate::app::{AppMsg, AppView, Effect, EffectView, LocalTarget, RshellApp};
use crate::app;
use crate::config::{
    GlobalConfig, ResolvedTerminalSettings, TerminalSettingChange, TerminalSettings,
};
use crate::config;
use crate::connection::{ConnectionProfile, ConnectionStore};
use crate::connection;
use crate::draft::ConnectionDraft;
use crate::draft;
use crate::keys::{KeyCode, KeyModifiers};
use crate::keys;
use crate::panes;
use crate::seqs;
use crate::store_laws;
use crate::text;

verus! {

impl AppView {
    /// Whether the tabs are in order: each of them is, and one is selected if and only if
    /// there are any.
    pub open spec fn tabs_in_order(self) -> bool {
        &&& forall|i: int| 0 <= i < self.groups.len() ==> (#[trigger] self.groups[i]).well_formed()
        &&& match self.selected_group {
            Some(i) => 0 <= i < self.groups.len(),
            None => self.groups.len() == 0,
        }
    }

    /// Whether the connections are in order: the store is tidy and no two connections
    /// have the same identifier.
    pub open spec fn connections_in_order(self) -> bool {
        &&& store_laws::is_tidy(self.store)
        &&& store_laws::ids_distinct(self.store.connections)
    }
}

/// Whether a message can change tabs or panes, or which of them is selected.
pub open spec fn touches_tabs(msg: AppMsg) -> bool {
    match msg {
        AppMsg::SelectGroup(_)
        | AppMsg::CloseGroup(_)
        | AppMsg::ClosePane
        | AppMsg::FocusPane(_)
        | AppMsg::SessionLaunched(..)
        | AppMsg::LocalLaunched(..)
        | AppMsg::ShutdownAll => true,
        _ => false,
    }
}

/// The other messages leave tabs and panes alone and shut nothing down.
#[verifier::spinoff_prover]
#[verifier::rlimit(50)]
pub proof fn other_messages_keep_tabs(v: AppView, msg: AppMsg, folder: Uuid, fresh: Uuid)
    requires
        !touches_tabs(msg),
    ensures
        app::after(v, msg, folder, fresh).0.groups == v.groups,
        app::after(v, msg, folder, fresh).0.selected_group == v.selected_group,
        forall|i: int|
            0 <= i < app::after(v, msg, folder, fresh).1.len() ==> !(#[trigger] app::after(
                v,
                msg,
                folder,
                fresh,
            ).1[i] is Shutdown),
{
    // One message at a time.
    if app::edited_draft(v.draft, msg) is None && app::notice(
        v.store.connections.len(),
        msg,
    ) is None {
        match msg {
            AppMsg::SelectConnection(_) => {},
            AppMsg::NewConnection => {},
            AppMsg::SaveDraft => {},
            AppMsg::DeleteSelected => {},
            AppMsg::ToggleSidebar => {},
            AppMsg::ToggleEditor => {},
            AppMsg::LaunchSelected => {},
            AppMsg::SplitHorizontal | AppMsg::SplitVertical => {},
            AppMsg::PaneKeyPress(..) => {},
            AppMsg::ToggleBroadcast => {},
            AppMsg::PasteRemoteIp(_) => {},
            AppMsg::GlobalTerminalChanged(_) => {},
            AppMsg::ThemeChanged(_) => {},
            AppMsg::OpenGlobalSettings => {},
            _ => {},
        }
    }
}

proof fn close_group_in_order(v: AppView, index: int)
    requires
        v.tabs_in_order(),
        0 <= index,
    ensures
        app::after_close_group(v, index).0.tabs_in_order(),
{
}

proof fn close_pane_in_order(v: AppView)
    requires
        v.tabs_in_order(),
    ensures
        app::after_close_pane(v).0.tabs_in_order(),
{
    if let Some(i) = v.selected_group {
        close_group_in_order(v, i);
    }
}

proof fn local_launched_in_order(v: AppView, target: LocalTarget, session: u64)
    requires
        v.tabs_in_order(),
    ensures
        app::after_local_launched(v, target, session).0.tabs_in_order(),
{
}

/// Every message leaves the tabs in order: at every time a tab has one to four panes, as
/// many as its layout shows, one of which is active, and a tab is selected if there is
/// any.
#[verifier::spinoff_prover]
#[verifier::rlimit(50)]
pub proof fn tabs_stay_in_order(v: AppView, msg: AppMsg, folder: Uuid, fresh: Uuid)
    requires
        v.tabs_in_order(),
    ensures
        app::after(v, msg, folder, fresh).0.tabs_in_order(),
{
    match msg {
        AppMsg::CloseGroup(index) => close_group_in_order(v, index as int),
        AppMsg::ClosePane => close_pane_in_order(v),
        AppMsg::LocalLaunched(target, session) => local_launched_in_order(v, target, session),
        AppMsg::SelectGroup(_)
        | AppMsg::FocusPane(_)
        | AppMsg::SessionLaunched(..)
        | AppMsg::ShutdownAll => {},
        _ => other_messages_keep_tabs(v, msg, folder, fresh),
    }
}

/// The session that comes with a message, if any.
pub open spec fn arriving(msg: AppMsg) -> Seq<u64> {
    match msg {
        AppMsg::SessionLaunched(_, session, _) => seq![session],
        AppMsg::LocalLaunched(_, session) => seq![session],
        _ => Seq::empty(),
    }
}

/// The sessions that effects shut down, in order.
pub open spec fn shut_down(effects: Seq<EffectView>) -> Seq<u64>
    decreases effects.len(),
{
    if effects.len() == 0 {
        Seq::empty()
    } else {
        match effects.last() {
            EffectView::Shutdown(session) => shut_down(effects.drop_last()).push(session),
            _ => shut_down(effects.drop_last()),
        }
    }
}

proof fn shut_down_each(sessions: Seq<u64>)
    ensures
        shut_down(app::shutdown_each(sessions)) == sessions,
    decreases sessions.len(),
{
    let effects = app::shutdown_each(sessions);
    if sessions.len() > 0 {
        shut_down_each(sessions.drop_last());
        assert(effects.drop_last() =~= app::shutdown_each(sessions.drop_last()));
        assert(effects.last() == EffectView::Shutdown(sessions.last()));
        assert(sessions =~= sessions.drop_last().push(sessions.last()));
    } else {
        assert(sessions =~= Seq::empty());
    }
}

proof fn nothing_shut_down(effects: Seq<EffectView>)
    requires
        forall|i: int| 0 <= i < effects.len() ==> !(#[trigger] effects[i] is Shutdown),
    ensures
        shut_down(effects) == Seq::<u64>::empty(),
    decreases effects.len(),
{
    if effects.len() > 0 {
        assert(!(effects[effects.len() - 1] is Shutdown));
        nothing_shut_down(effects.drop_last());
    }
}

proof fn one_shut_down(session: u64)
    ensures
        shut_down(seq![EffectView::Shutdown(session)]) == seq![session],
{
    let effects = seq![EffectView::Shutdown(session)];
    assert(effects.drop_last() =~= Seq::empty());
    assert(shut_down(effects.drop_last()) =~= Seq::empty());
    assert(shut_down(effects) =~= seq![session]);
}

proof fn sessions_of_both(a: Seq<panes::GroupView>, b: Seq<panes::GroupView>)
    ensures
        app::all_sessions(a + b) == app::all_sessions(a) + app::all_sessions(b),
    decreases b.len(),
{
    if b.len() == 0 {
        assert(a + b =~= a);
        assert(app::all_sessions(b) =~= Seq::empty());
        assert(app::all_sessions(a) + app::all_sessions(b) =~= app::all_sessions(a));
    } else {
        sessions_of_both(a, b.drop_last());
        assert((a + b).drop_last() =~= a + b.drop_last());
        assert((a + b).last() == b.last());
        assert(app::all_sessions(a + b) =~= app::all_sessions(a) + app::all_sessions(b));
    }
}

proof fn sessions_of_one(g: panes::GroupView)
    ensures
        app::all_sessions(seq![g]) == app::group_sessions(g),
{
    assert(seq![g].drop_last() =~= Seq::empty());
    assert(app::all_sessions(seq![g].drop_last()) =~= Seq::empty());
    assert(app::all_sessions(seq![g]) =~= app::group_sessions(g));
}

/// The sessions before tab `i`, in it and behind it.
proof fn sessions_around(groups: Seq<panes::GroupView>, i: int)
    requires
        0 <= i < groups.len(),
    ensures
        app::all_sessions(groups) == app::all_sessions(groups.take(i)) + app::group_sessions(
            groups[i],
        ) + app::all_sessions(groups.skip(i + 1)),
        app::all_sessions(groups.remove(i)) == app::all_sessions(groups.take(i))
            + app::all_sessions(groups.skip(i + 1)),
{
    let before = groups.take(i);
    let behind = groups.skip(i + 1);
    sessions_of_one(groups[i]);
    sessions_of_both(before, seq![groups[i]]);
    sessions_of_both(before + seq![groups[i]], behind);
    assert(groups =~= before + seq![groups[i]] + behind);
    sessions_of_both(before, behind);
    assert(groups.remove(i) =~= before + behind);
}

/// Sessions that come from somewhere or go somewhere, without regard to order.
pub open spec fn pooled(a: Seq<u64>, b: Seq<u64>) -> vstd::multiset::Multiset<u64> {
    a.to_multiset().add(b.to_multiset())
}

proof fn pooled_close(v: AppView, index: int)
    requires
        0 <= index,
    ensures
        pooled(
            app::after_close_group(v, index).0.sessions(),
            shut_down(app::after_close_group(v, index).1),
        ) == pooled(v.sessions(), Seq::empty()),
{
    broadcast use group_to_multiset_ensures;

    let none = Seq::<u64>::empty();
    assert(none.to_multiset() =~= vstd::multiset::Multiset::empty());
    if index < v.groups.len() {
        let here = app::group_sessions(v.groups[index]);
        let before = app::all_sessions(v.groups.take(index));
        let behind = app::all_sessions(v.groups.skip(index + 1));
        sessions_around(v.groups, index);
        shut_down_each(here);
        lemma_multiset_commutative(before, here);
        lemma_multiset_commutative(before + here, behind);
        lemma_multiset_commutative(before, behind);
        assert(pooled(before + behind, here) =~= pooled(before + here + behind, none));
    } else {
        nothing_shut_down(app::no_effects());
    }
}

/// Replacing a tab changes the sessions by what the tab loses or gains.
proof fn pooled_update(groups: Seq<panes::GroupView>, i: int, g: panes::GroupView)
    requires
        0 <= i < groups.len(),
    ensures
        pooled(app::all_sessions(groups.update(i, g)), app::group_sessions(groups[i])) == pooled(
            app::all_sessions(groups),
            app::group_sessions(g),
        ),
{
    let before = app::all_sessions(groups.take(i));
    let behind = app::all_sessions(groups.skip(i + 1));
    let old_here = app::group_sessions(groups[i]);
    let new_here = app::group_sessions(g);
    let changed = groups.update(i, g);
    sessions_around(groups, i);
    sessions_around(changed, i);
    assert(changed.take(i) =~= groups.take(i));
    assert(changed.skip(i + 1) =~= groups.skip(i + 1));
    lemma_multiset_commutative(before, old_here);
    lemma_multiset_commutative(before + old_here, behind);
    lemma_multiset_commutative(before, new_here);
    lemma_multiset_commutative(before + new_here, behind);
    assert(pooled(before + new_here + behind, old_here) =~= pooled(
        before + old_here + behind,
        new_here,
    ));
}

proof fn pooled_close_pane(v: AppView)
    requires
        v.selected_group matches Some(i) ==> 0 <= i,
    ensures
        pooled(app::after_close_pane(v).0.sessions(), shut_down(app::after_close_pane(v).1))
            == pooled(v.sessions(), Seq::empty()),
{
    broadcast use group_to_multiset_ensures;

    let none = Seq::<u64>::empty();
    assert(none.to_multiset() =~= vstd::multiset::Multiset::empty());
    nothing_shut_down(app::no_effects());
    match v.current_group() {
        Some(g) => {
            let i = v.selected_group->0;
            if g.panes.len() > 1 {
                if 0 <= g.active_pane < g.panes.len() {
                    let here = app::group_sessions(g);
                    let left = app::group_sessions(g.without_pane(g.active_pane));
                    let session = g.panes[g.active_pane].session;
                    assert(left =~= here.remove(g.active_pane));
                    assert(here[g.active_pane] == session);
                    to_multiset_remove(here, g.active_pane);
                    one_shut_down(session);
                    pooled_update(v.groups, i, g.without_pane(g.active_pane));
                    let after = app::all_sessions(
                        v.groups.update(i, g.without_pane(g.active_pane)),
                    );
                    assert(seq![session] =~= none.push(session));
                    to_multiset_build(none, session);
                    assert forall|n: u64| pooled(after, seq![session]).count(n) == pooled(
                        v.sessions(),
                        none,
                    ).count(n) by {
                        assert(pooled(after, here).count(n) == pooled(v.sessions(), left).count(n));
                    }
                    assert(pooled(after, seq![session]) =~= pooled(v.sessions(), none));
                }
            } else {
                pooled_close(v, i);
            }
        },
        None => {},
    }
}

proof fn pooled_tab(v: AppView, pane: panes::PaneView)
    ensures
        pooled(v.with_tab(pane).sessions(), Seq::empty()) == pooled(
            v.sessions(),
            seq![pane.session],
        ),
{
    broadcast use group_to_multiset_ensures;

    let none = Seq::<u64>::empty();
    assert(none.to_multiset() =~= vstd::multiset::Multiset::empty());
    let g = panes::single_group(pane);
    let groups = v.groups.push(g);
    assert(groups.drop_last() =~= v.groups);
    assert(app::group_sessions(g) =~= seq![pane.session]);
    lemma_multiset_commutative(v.sessions(), seq![pane.session]);
    assert(pooled(v.with_tab(pane).sessions(), none) =~= pooled(v.sessions(), seq![pane.session]));
}

proof fn pooled_local(v: AppView, target: LocalTarget, session: u64)
    requires
        v.selected_group matches Some(i) ==> 0 <= i,
    ensures
        pooled(
            app::after_local_launched(v, target, session).0.sessions(),
            shut_down(app::after_local_launched(v, target, session).1),
        ) == pooled(v.sessions(), seq![session]),
{
    broadcast use group_to_multiset_ensures;

    let none = Seq::<u64>::empty();
    assert(none.to_multiset() =~= vstd::multiset::Multiset::empty());
    nothing_shut_down(app::no_effects());
    one_shut_down(session);
    let pane = app::local_pane(session);
    match target {
        LocalTarget::Startup | LocalTarget::NewTab => pooled_tab(v, pane),
        LocalTarget::Split { horizontal } => {
            match v.current_group() {
                Some(g) => {
                    if g.can_grow() {
                        let i = v.selected_group->0;
                        let here = app::group_sessions(g);
                        let more = app::group_sessions(g.with_pane(pane, horizontal));
                        assert(more =~= here.push(session));
                        to_multiset_build(here, session);
                        assert(seq![session] =~= none.push(session));
                        to_multiset_build(none, session);
                        pooled_update(v.groups, i, g.with_pane(pane, horizontal));
                        let after = app::all_sessions(
                            v.groups.update(i, g.with_pane(pane, horizontal)),
                        );
                        assert forall|n: u64| pooled(after, none).count(n) == pooled(
                            v.sessions(),
                            seq![session],
                        ).count(n) by {
                            assert(pooled(after, here).count(n) == pooled(
                                v.sessions(),
                                more,
                            ).count(n));
                        }
                        assert(pooled(after, none) =~= pooled(v.sessions(), seq![session]));
                    }
                },
                None => {},
            }
        },
    }
}

proof fn focus_keeps_sessions(v: AppView, index: int)
    ensures
        app::after_focus_pane(v, index).sessions() == v.sessions(),
{
    match v.current_group() {
        Some(g) => {
            if index < g.panes.len() {
                let i = v.selected_group->0;
                let changed = v.groups.update(i, panes::GroupView { active_pane: index, ..g });
                sessions_around(v.groups, i);
                sessions_around(changed, i);
                assert(changed.take(i) =~= v.groups.take(i));
                assert(changed.skip(i + 1) =~= v.groups.skip(i + 1));
                assert(app::group_sessions(changed[i]) =~= app::group_sessions(g));
            }
        },
        None => {},
    }
}

/// No session is lost: the sessions in the panes and those that came with a message are,
/// after the message, either in a pane or shut down, each exactly as often as before.
#[verifier::spinoff_prover]
#[verifier::rlimit(50)]
pub proof fn no_session_is_lost(v: AppView, msg: AppMsg, folder: Uuid, fresh: Uuid)
    requires
        v.selected_group matches Some(i) ==> 0 <= i,
    ensures
        pooled(
            app::after(v, msg, folder, fresh).0.sessions(),
            shut_down(app::after(v, msg, folder, fresh).1),
        ) == pooled(v.sessions(), arriving(msg)),
{
    nothing_shut_down(app::no_effects());
    match msg {
        AppMsg::SelectGroup(_) => {},
        AppMsg::CloseGroup(index) => pooled_close(v, index as int),
        AppMsg::ClosePane => pooled_close_pane(v),
        AppMsg::FocusPane(index) => focus_keeps_sessions(v, index as int),
        AppMsg::SessionLaunched(name, session, host) => {
            pooled_tab(
                v,
                panes::PaneView { name: name@, session, remote_host: config::text_view(host) },
            );
        },
        AppMsg::LocalLaunched(target, session) => pooled_local(v, target, session),
        AppMsg::ShutdownAll => {
            shut_down_each(v.sessions());
            assert(app::all_sessions(Seq::empty()) =~= Seq::empty());
            assert(pooled(Seq::empty(), v.sessions()) =~= pooled(v.sessions(), Seq::empty()));
        },
        _ => {
            other_messages_keep_tabs(v, msg, folder, fresh);
            nothing_shut_down(app::after(v, msg, folder, fresh).1);
        },
    }
}

/// Shutting everything down leaves no session in a pane.
pub proof fn shutdown_leaves_nothing(v: AppView, folder: Uuid, fresh: Uuid)
    ensures
        app::after(v, AppMsg::ShutdownAll, folder, fresh).0.sessions() == Seq::<u64>::empty(),
        app::after(v, AppMsg::ShutdownAll, folder, fresh).1 == app::shutdown_each(v.sessions()),
{
    assert(app::all_sessions(Seq::empty()) =~= Seq::empty());
}

/// Every message leaves the connections in order: the store stays tidy and identifiers
/// stay distinct.
#[verifier::spinoff_prover]
#[verifier::rlimit(50)]
pub proof fn connections_stay_in_order(v: AppView, msg: AppMsg, folder: Uuid, fresh: Uuid)
    requires
        v.connections_in_order(),
    ensures
        app::after(v, msg, folder, fresh).0.connections_in_order(),
{
    match msg {
        AppMsg::SaveDraft => {
            let (with_folder, profile) = draft::drafted(v.draft, v.store, folder, fresh);
            assert(with_folder.connections == v.store.connections);
            store_laws::upsert_is_tidy(with_folder, profile);
            store_laws::upsert_keeps_ids_distinct(with_folder, profile);
        },
        AppMsg::DeleteSelected => {
            if let Some(p) = v.selected_profile() {
                store_laws::remove_is_tidy(v.store, p.id);
                store_laws::remove_keeps_ids_distinct(v.store, p.id);
            }
        },
        _ => other_messages_keep_store(v, msg, folder, fresh),
    }
}

/// Only saving the draft and deleting a connection change the connections.
#[verifier::spinoff_prover]
#[verifier::rlimit(50)]
pub proof fn other_messages_keep_store(v: AppView, msg: AppMsg, folder: Uuid, fresh: Uuid)
    requires
        !(msg is SaveDraft),
        !(msg is DeleteSelected),
    ensures
        app::after(v, msg, folder, fresh).0.store == v.store,
{
    // One message at a time.
    if app::edited_draft(v.draft, msg) is None && app::notice(
        v.store.connections.len(),
        msg,
    ) is None {
        match msg {
            AppMsg::SelectConnection(_) => {},
            AppMsg::NewConnection => {},
            AppMsg::ToggleSidebar => {},
            AppMsg::ToggleEditor => {},
            AppMsg::LaunchSelected => {},
            AppMsg::SelectGroup(_) => {},
            AppMsg::CloseGroup(_) => {},
            AppMsg::SplitHorizontal | AppMsg::SplitVertical => {},
            AppMsg::ClosePane => {},
            AppMsg::FocusPane(_) => {},
            AppMsg::PaneKeyPress(..) => {},
            AppMsg::LocalLaunched(..) => {},
            AppMsg::ShutdownAll => {},
            AppMsg::ToggleBroadcast => {},
            AppMsg::PasteRemoteIp(_) => {},
            AppMsg::GlobalTerminalChanged(_) => {},
            AppMsg::ThemeChanged(_) => {},
            AppMsg::OpenGlobalSettings => {},
            _ => {},
        }
    }
}

/// A draft that is saved becomes a connection that is selected and found: the normalized
/// form of what the draft stands for.
pub proof fn saved_draft_is_selected(v: AppView, folder: Uuid, fresh: Uuid)
    requires
        store_laws::ids_distinct(v.store.connections),
    ensures
        app::after(v, AppMsg::SaveDraft, folder, fresh).0.selected_profile() == Some(
            connection::normalized_profile(draft::drafted(v.draft, v.store, folder, fresh).1),
        ),
        app::after(v, AppMsg::SaveDraft, folder, fresh).1 == seq![
            EffectView::SaveStore { report: true },
        ],
{
    let (with_folder, profile) = draft::drafted(v.draft, v.store, folder, fresh);
    assert(with_folder.connections == v.store.connections);
    store_laws::upsert_then_find(with_folder, profile);
    assert(connection::normalized_profile(profile).name.len() > 0) by {
        text::trim_idempotent(v.draft.name);
        reveal_strlit("New connection");
        let name = "New connection"@;
        assert(!text::is_white_space(name[0]) && !text::is_white_space(name[13]));
        assert(text::trimmed(name) == name);
    }
}

/// In broadcast mode a key that means something goes to every session in a pane exactly
/// once, and otherwise to one session at most.
pub proof fn keys_reach_their_sessions(
    v: AppView,
    pane: usize,
    key: u32,
    character: Option<char>,
    state: u32,
    folder: Uuid,
    fresh: Uuid,
)
    ensures
        ({
            let (next, effects) = app::after(
                v,
                AppMsg::PaneKeyPress(pane, key, character, state),
                folder,
                fresh,
            );
            &&& next == v
            &&& keys::key_meaning(key, character) is None ==> effects.len() == 0
            &&& v.broadcast_mode && keys::key_meaning(key, character) is Some ==> effects
                == app::key_for_each(
                v.sessions(),
                keys::key_meaning(key, character)->0,
                keys::modifiers_in(state),
            )
            &&& !v.broadcast_mode ==> effects.len() <= 1
        }),
{
}

/// While the editor is being filled, no message edits the draft.
pub proof fn filling_the_editor_edits_nothing(v: AppView, msg: AppMsg, folder: Uuid, fresh: Uuid)
    requires
        v.updating.draft,
        app::edited_draft(v.draft, msg) is Some,
    ensures
        app::after(v, msg, folder, fresh) == (v, app::no_effects()),
{
}

/// The application starts in order, where the store that was read is tidy with distinct
/// identifiers, as one that was written is, or holds no connection.
pub proof fn starts_in_order(
    read: connection::StoreView,
    global_config: config::GlobalConfigView,
    fresh: Uuid,
)
    requires
        store_laws::ids_distinct(read.connections),
        read.connections.len() > 0 ==> store_laws::is_tidy(read),
    ensures
        app::started(read, global_config, fresh).0.tabs_in_order(),
        app::started(read, global_config, fresh).0.connections_in_order(),
{
    if read.connections.len() == 0 {
        store_laws::upsert_is_tidy(read, app::sample_profile(fresh));
        store_laws::upsert_keeps_ids_distinct(read, app::sample_profile(fresh));
    }
}

/// A session gets every setting of its own, else the global one.
pub proof fn own_settings_go_before_global_ones(
    app: &RshellApp,
    session: &TerminalSettings,
    r: ResolvedTerminalSettings,
)
    requires
        call_ensures(RshellApp::resolve_settings, (app, session), r),
    ensures
        session.terminal_type matches Some(v) ==> r.terminal_type@ == v@,
        session.initial_cols matches Some(v) ==> r.initial_cols == v,
        session.initial_rows matches Some(v) ==> r.initial_rows == v,
        session.scrollback_lines matches Some(v) ==> r.scrollback_lines == v,
        session.delete_key matches Some(v) ==> r.delete_key == v,
        session.backspace_key matches Some(v) ==> r.backspace_key == v,
        session.left_alt_as_meta matches Some(v) ==> r.left_alt_as_meta == v,
        session.right_alt_as_meta matches Some(v) ==> r.right_alt_as_meta == v,
        session.enable_csi_u matches Some(v) ==> r.enable_csi_u == v,
        session.enable_kitty_keyboard matches Some(v) ==> r.enable_kitty_keyboard == v,
        session.enable_kitty_graphics matches Some(v) ==> r.enable_kitty_graphics == v,
        session.mouse_reporting matches Some(v) ==> r.mouse_reporting == v,
        session.scroll_on_output matches Some(v) ==> r.scroll_on_output == v,
        session.scroll_on_keypress matches Some(v) ==> r.scroll_on_keypress == v,
        session.answerback matches Some(v) ==> r.answerback@ == v@,
        session.color_scheme matches Some(v) ==> r.color_scheme == v,
        session.terminal_type is None && app.global_config.terminal.terminal_type is Some ==> r.terminal_type@
            == app.global_config.terminal.terminal_type->0@,
        session.initial_cols is None && app.global_config.terminal.initial_cols is Some ==> r.initial_cols
            == app.global_config.terminal.initial_cols->0,
        session.initial_rows is None && app.global_config.terminal.initial_rows is Some ==> r.initial_rows
            == app.global_config.terminal.initial_rows->0,
        session.scrollback_lines is None && app.global_config.terminal.scrollback_lines is Some ==> r.scrollback_lines
            == app.global_config.terminal.scrollback_lines->0,
        session.delete_key is None && app.global_config.terminal.delete_key is Some ==> r.delete_key
            == app.global_config.terminal.delete_key->0,
        session.backspace_key is None && app.global_config.terminal.backspace_key is Some ==> r.backspace_key
            == app.global_config.terminal.backspace_key->0,
        session.left_alt_as_meta is None && app.global_config.terminal.left_alt_as_meta is Some ==> r.left_alt_as_meta
            == app.global_config.terminal.left_alt_as_meta->0,
        session.right_alt_as_meta is None && app.global_config.terminal.right_alt_as_meta is Some ==> r.right_alt_as_meta
            == app.global_config.terminal.right_alt_as_meta->0,
        session.enable_csi_u is None && app.global_config.terminal.enable_csi_u is Some ==> r.enable_csi_u
            == app.global_config.terminal.enable_csi_u->0,
        session.enable_kitty_keyboard is None && app.global_config.terminal.enable_kitty_keyboard is Some ==> r.enable_kitty_keyboard
            == app.global_config.terminal.enable_kitty_keyboard->0,
        session.enable_kitty_graphics is None && app.global_config.terminal.enable_kitty_graphics is Some ==> r.enable_kitty_graphics
            == app.global_config.terminal.enable_kitty_graphics->0,
        session.mouse_reporting is None && app.global_config.terminal.mouse_reporting is Some ==> r.mouse_reporting
            == app.global_config.terminal.mouse_reporting->0,
        session.scroll_on_output is None && app.global_config.terminal.scroll_on_output is Some ==> r.scroll_on_output
            == app.global_config.terminal.scroll_on_output->0,
        session.scroll_on_keypress is None && app.global_config.terminal.scroll_on_keypress is Some ==> r.scroll_on_keypress
            == app.global_config.terminal.scroll_on_keypress->0,
        session.answerback is None && app.global_config.terminal.answerback is Some ==> r.answerback@
            == app.global_config.terminal.answerback->0@,
        session.color_scheme is None && app.global_config.terminal.color_scheme is Some ==> r.color_scheme
            == app.global_config.terminal.color_scheme->0,
{
}

/// A local session gets the global settings.
pub proof fn local_sessions_get_global_settings(app: &RshellApp, r: ResolvedTerminalSettings)
    requires
        call_ensures(RshellApp::default_resolved_settings, (app,), r),
    ensures
        app.global_config.terminal.terminal_type matches Some(v) ==> r.terminal_type@ == v@,
        app.global_config.terminal.initial_cols matches Some(v) ==> r.initial_cols == v,
        app.global_config.terminal.initial_rows matches Some(v) ==> r.initial_rows == v,
        app.global_config.terminal.scrollback_lines matches Some(v) ==> r.scrollback_lines == v,
        app.global_config.terminal.delete_key matches Some(v) ==> r.delete_key == v,
        app.global_config.terminal.backspace_key matches Some(v) ==> r.backspace_key == v,
        app.global_config.terminal.left_alt_as_meta matches Some(v) ==> r.left_alt_as_meta == v,
        app.global_config.terminal.right_alt_as_meta matches Some(v) ==> r.right_alt_as_meta == v,
        app.global_config.terminal.enable_csi_u matches Some(v) ==> r.enable_csi_u == v,
        app.global_config.terminal.enable_kitty_keyboard matches Some(v) ==> r.enable_kitty_keyboard == v,
        app.global_config.terminal.enable_kitty_graphics matches Some(v) ==> r.enable_kitty_graphics == v,
        app.global_config.terminal.mouse_reporting matches Some(v) ==> r.mouse_reporting == v,
        app.global_config.terminal.scroll_on_output matches Some(v) ==> r.scroll_on_output == v,
        app.global_config.terminal.scroll_on_keypress matches Some(v) ==> r.scroll_on_keypress == v,
        app.global_config.terminal.answerback matches Some(v) ==> r.answerback@ == v@,
        app.global_config.terminal.color_scheme matches Some(v) ==> r.color_scheme == v,
{
}

/// A key that is pressed in a pane goes to the session in it, with the modifiers that are
/// held, and to no other. One that means nothing goes nowhere.
pub proof fn keys_go_to_their_pane(
    app: &mut RshellApp,
    pane: usize,
    key: u32,
    character: Option<char>,
    state: u32,
    r: Option<(KeyCode, KeyModifiers)>,
    folder: Uuid,
    fresh: Uuid,
    effects: Vec<Effect>,
)
    requires
        call_ensures(RshellApp::update_with, (app, AppMsg::PaneKeyPress(pane, key, character, state), folder, fresh), effects),
        call_ensures(keys::key_press, (key, character, state), r),
    ensures
        final(app)@ == old(app)@,
        r is None ==> effects@.len() == 0,
        ({
            let shown = old(app).selected_group matches Some(i) && i < old(app).groups@.len() && pane
                < old(app).groups@[i as int].panes@.len();
            !old(app).broadcast_mode && r is Some ==> {
                &&& !shown ==> effects@.len() == 0
                &&& shown ==> effects@.len() == 1 && effects@[0]@ == EffectView::KeyDown(
                    old(app).groups@[old(app).selected_group->0 as int].panes@[pane as int].session,
                    (r->0).0,
                    (r->0).1,
                )
            }
        }),
{
    let e = app::effect_views(effects@);
    assert(effects@.len() == e.len());
    if e.len() > 0 {
        assert(effects@[0]@ == e[0]);
    }
}

/// In broadcast mode a key goes to the sessions in all panes of all tabs, and to nothing
/// else.
pub proof fn broadcast_keys_go_to_every_pane(
    app: &mut RshellApp,
    pane: usize,
    key: u32,
    character: Option<char>,
    state: u32,
    r: Option<(KeyCode, KeyModifiers)>,
    session: u64,
    folder: Uuid,
    fresh: Uuid,
    effects: Vec<Effect>,
)
    requires
        call_ensures(RshellApp::update_with, (app, AppMsg::PaneKeyPress(pane, key, character, state), folder, fresh), effects),
        call_ensures(keys::key_press, (key, character, state), r),
        old(app).broadcast_mode,
        r is Some,
    ensures
        (exists|i: int|
            0 <= i < effects@.len() && (#[trigger] effects@[i])@ == EffectView::KeyDown(
                session,
                (r->0).0,
                (r->0).1,
            )) <==> exists|t: int, k: int|
            0 <= t < old(app)@.groups.len() && 0 <= k < old(app)@.groups[t].panes.len() && (
            #[trigger] old(app)@.groups[t].panes[k]).session == session,
        forall|i: int|
            0 <= i < effects@.len() ==> ((#[trigger] effects@[i])@ matches EffectView::KeyDown(
                _,
                code,
                mods,
            ) && code == (r->0).0 && mods == (r->0).1),
{
    let e = app::effect_views(effects@);
    let groups = old(app)@.groups;
    let all = app::all_sessions(groups);
    assert(e == app::key_for_each(all, (r->0).0, (r->0).1));
    assert forall|i: int| 0 <= i < effects@.len() implies (#[trigger] effects@[i])@
        == EffectView::KeyDown(all[i], (r->0).0, (r->0).1) by {
        assert(e[i] == effects@[i]@);
    }
    session_is_in_a_pane(groups, session);
    if all.contains(session) {
        let i = all.index_of(session);
        assert(effects@[i]@ == EffectView::KeyDown(session, (r->0).0, (r->0).1));
    }
    if exists|i: int|
        0 <= i < effects@.len() && (#[trigger] effects@[i])@ == EffectView::KeyDown(
            session,
            (r->0).0,
            (r->0).1,
        ) {
        let i = choose|i: int|
            0 <= i < effects@.len() && (#[trigger] effects@[i])@ == EffectView::KeyDown(
                session,
                (r->0).0,
                (r->0).1,
            );
        assert(all[i] == session);
        assert(all.contains(session));
    }
}

/// The sessions of tabs are those in their panes.
proof fn session_is_in_a_pane(groups: Seq<panes::GroupView>, session: u64)
    ensures
        app::all_sessions(groups).contains(session) <==> exists|t: int, k: int|
            0 <= t < groups.len() && 0 <= k < groups[t].panes.len() && (
            #[trigger] groups[t].panes[k]).session == session,
    decreases groups.len(),
{
    let all = app::all_sessions(groups);
    if groups.len() > 0 {
        let rest = groups.drop_last();
        let before = app::all_sessions(rest);
        let here = app::group_sessions(groups.last());
        session_is_in_a_pane(rest, session);
        if all.contains(session) {
            let i = all.index_of(session);
            if i < before.len() {
                assert(before[i] == session);
                assert(before.contains(session));
                let (t, k) = choose|t: int, k: int|
                    0 <= t < rest.len() && 0 <= k < rest[t].panes.len() && (
                    #[trigger] rest[t].panes[k]).session == session;
                assert(groups[t].panes[k].session == session);
            } else {
                let k = i - before.len();
                assert(here[k] == session);
                assert(groups[groups.len() - 1].panes[k].session == session);
            }
        }
        if exists|t: int, k: int|
            0 <= t < groups.len() && 0 <= k < groups[t].panes.len() && (
            #[trigger] groups[t].panes[k]).session == session {
            let (t, k) = choose|t: int, k: int|
                0 <= t < groups.len() && 0 <= k < groups[t].panes.len() && (
                #[trigger] groups[t].panes[k]).session == session;
            if t < rest.len() {
                assert(rest[t].panes[k].session == session);
                assert(before.contains(session));
                let i = before.index_of(session);
                assert(all[i] == session);
            } else {
                assert(here[k] == session);
                assert(all[before.len() + k] == session);
            }
        }
    }
}

/// The selected connection is launched, with its own settings over the global ones; without
/// one, the message line asks for it.
pub proof fn selected_connection_is_launched(
    app: &mut RshellApp,
    found: Option<&ConnectionProfile>,
    session: &TerminalSettings,
    settings: ResolvedTerminalSettings,
    folder: Uuid,
    fresh: Uuid,
    effects: Vec<Effect>,
)
    requires
        call_ensures(RshellApp::update_with, (app, AppMsg::LaunchSelected, folder, fresh), effects),
        call_ensures(RshellApp::selected_profile, (&*old(app),), found),
        call_ensures(RshellApp::resolve_settings, (&*old(app), session), settings),
    ensures
        found is Some && session@ == (found->0).terminal@ ==> {
            &&& effects@.len() == 1 && effects@[0]@ == EffectView::LaunchProfile(
                (found->0)@,
                settings@,
            )
            &&& final(app)@ == (AppView { toast: final(app)@.toast, ..old(app)@ })
            &&& final(app)@.toast == "Connecting to "@ + (found->0).name@ + "..."@
        },
        found is None ==> {
            &&& effects@.len() == 0
            &&& final(app)@ == (AppView { toast: "Select a connection first"@, ..old(app)@ })
        },
{
    let e = app::effect_views(effects@);
    assert(effects@.len() == e.len());
    if e.len() > 0 {
        assert(effects@[0]@ == e[0]);
    }
}

/// A new tab asks for a local session with the global settings, and changes nothing else.
pub proof fn new_tabs_ask_for_a_local_session(
    app: &mut RshellApp,
    settings: ResolvedTerminalSettings,
    folder: Uuid,
    fresh: Uuid,
    effects: Vec<Effect>,
)
    requires
        call_ensures(RshellApp::update_with, (app, AppMsg::NewLocalTab, folder, fresh), effects),
        call_ensures(RshellApp::default_resolved_settings, (&*old(app),), settings),
    ensures
        final(app)@ == old(app)@,
        effects@.len() == 1,
        effects@[0]@ == EffectView::LaunchLocal(LocalTarget::NewTab, settings@),
{
    let e = app::effect_views(effects@);
    assert(effects@.len() == e.len());
    assert(effects@[0]@ == e[0]);
}

/// A split side by side asks for a local session for the selected tab, as long as that has less
/// than four panes; else the message line tells that it is full.
pub proof fn horizontal_splits_ask_for_a_session(
    app: &mut RshellApp,
    settings: ResolvedTerminalSettings,
    folder: Uuid,
    fresh: Uuid,
    effects: Vec<Effect>,
)
    requires
        call_ensures(RshellApp::update_with, (app, AppMsg::SplitHorizontal, folder, fresh), effects),
        call_ensures(RshellApp::default_resolved_settings, (&*old(app),), settings),
    ensures
        old(app).selected_group matches Some(i) && i < old(app).groups@.len() ==> {
            let panes = old(app).groups@[old(app).selected_group->0 as int].panes@.len();
            &&& panes < 4 ==> final(app)@ == old(app)@ && effects@.len() == 1 && effects@[0]@
                == EffectView::LaunchLocal(LocalTarget::Split { horizontal: true }, settings@)
            &&& panes >= 4 ==> effects@.len() == 0 && final(app)@ == (AppView {
                toast: "Max 4 panes per tab"@,
                ..old(app)@
            })
        },
        old(app).selected_group is None ==> final(app)@ == old(app)@ && effects@.len() == 0,
{
    let e = app::effect_views(effects@);
    assert(effects@.len() == e.len());
    if e.len() > 0 {
        assert(effects@[0]@ == e[0]);
    }
}

/// A split one above the other asks for a local session for the selected tab, as long as that has less
/// than four panes; else the message line tells that it is full.
pub proof fn vertical_splits_ask_for_a_session(
    app: &mut RshellApp,
    settings: ResolvedTerminalSettings,
    folder: Uuid,
    fresh: Uuid,
    effects: Vec<Effect>,
)
    requires
        call_ensures(RshellApp::update_with, (app, AppMsg::SplitVertical, folder, fresh), effects),
        call_ensures(RshellApp::default_resolved_settings, (&*old(app),), settings),
    ensures
        old(app).selected_group matches Some(i) && i < old(app).groups@.len() ==> {
            let panes = old(app).groups@[old(app).selected_group->0 as int].panes@.len();
            &&& panes < 4 ==> final(app)@ == old(app)@ && effects@.len() == 1 && effects@[0]@
                == EffectView::LaunchLocal(LocalTarget::Split { horizontal: false }, settings@)
            &&& panes >= 4 ==> effects@.len() == 0 && final(app)@ == (AppView {
                toast: "Max 4 panes per tab"@,
                ..old(app)@
            })
        },
        old(app).selected_group is None ==> final(app)@ == old(app)@ && effects@.len() == 0,
{
    let e = app::effect_views(effects@);
    assert(effects@.len() == e.len());
    if e.len() > 0 {
        assert(effects@[0]@ == e[0]);
    }
}

/// Whether tabs are others with one more behind them, which holds a single pane with the
/// session and is selected.
pub open spec fn has_new_tab(before: AppView, after: AppView, pane: panes::PaneView) -> bool {
    let n = before.groups.len() as int;
    &&& after.groups.len() == n + 1
    &&& forall|i: int| 0 <= i < n ==> #[trigger] after.groups[i] == before.groups[i]
    &&& after.groups[n].panes.len() == 1 && after.groups[n].panes[0] == pane
    &&& after.groups[n].active_pane == 0 && after.groups[n].layout == panes::SplitLayout::Single
    &&& after.selected_group == Some(n)
    &&& after.dirty.groups && after.dirty.terminal
}

/// A session that was started gets a tab of its own, under its name and with its host, and
/// the message line tells so.
pub proof fn started_sessions_get_a_tab(
    app: &mut RshellApp,
    name: String,
    session: u64,
    host: Option<String>,
    folder: Uuid,
    fresh: Uuid,
    effects: Vec<Effect>,
)
    requires
        call_ensures(RshellApp::update_with, (app, AppMsg::SessionLaunched(name, session, host), folder, fresh), effects),
    ensures
        has_new_tab(
            old(app)@,
            final(app)@,
            (panes::PaneView { name: name@, session, remote_host: config::text_view(host) }),
        ),
        final(app)@.toast == "Connected to "@ + name@,
        effects@.len() == 0,
{
    assert(app::effect_views(effects@).len() == effects@.len());
}

/// A local session gets a tab of its own, unless it was started for a split.
pub proof fn local_sessions_get_a_tab(
    app: &mut RshellApp,
    target: LocalTarget,
    session: u64,
    folder: Uuid,
    fresh: Uuid,
    effects: Vec<Effect>,
)
    requires
        call_ensures(RshellApp::update_with, (app, AppMsg::LocalLaunched(target, session), folder, fresh), effects),
    ensures
        !(target is Split) ==> effects@.len() == 0 && has_new_tab(
            old(app)@,
            final(app)@,
            (panes::PaneView { name: "Local Shell"@, session, remote_host: None }),
        ),
        target is Startup ==> final(app)@.toast == "Local shell launched"@,
        target is NewTab ==> final(app)@.toast == old(app)@.toast,
{
    assert(app::effect_views(effects@).len() == effects@.len());
}

/// A local session for a split becomes the last pane of the selected tab, and the active
/// one; the other panes and tabs stay as they are. Where the tab has no room any more, or
/// there is none, the session is shut down.
pub proof fn split_sessions_join_their_tab(
    app: &mut RshellApp,
    horizontal: bool,
    session: u64,
    folder: Uuid,
    fresh: Uuid,
    effects: Vec<Effect>,
)
    requires
        call_ensures(RshellApp::update_with, (app, AppMsg::LocalLaunched(LocalTarget::Split { horizontal }, session), folder, fresh), effects),
    ensures
        ({
            let v = old(app)@;
            let w = final(app)@;
            let room = v.selected_group matches Some(i) && 0 <= i < v.groups.len()
                && v.groups[i].panes.len() < 4;
            let i = v.selected_group->0;
            &&& !room ==> w == v && effects@.len() == 1 && effects@[0]@ == EffectView::Shutdown(
                session,
            )
            &&& room ==> {
                let n = v.groups[i].panes.len() as int;
                &&& effects@.len() == 0
                &&& w.groups.len() == v.groups.len()
                &&& forall|t: int|
                    0 <= t < v.groups.len() && t != i ==> #[trigger] w.groups[t] == v.groups[t]
                &&& w.groups[i].panes.len() == n + 1
                &&& forall|k: int|
                    0 <= k < n ==> #[trigger] w.groups[i].panes[k] == v.groups[i].panes[k]
                &&& w.groups[i].panes[n].session == session
                &&& w.groups[i].active_pane == n
                &&& n == 1 ==> (w.groups[i].layout == panes::SplitLayout::HSplit <==> horizontal)
                &&& w.selected_group == v.selected_group
                &&& w.dirty.terminal
            }
        }),
{
    let e = app::effect_views(effects@);
    assert(effects@.len() == e.len());
    if e.len() > 0 {
        assert(effects@[0]@ == e[0]);
    }
}

/// Closing a tab shuts down the sessions in its panes, in order, and takes it out; the other
/// tabs keep their order. Another tab that was selected stays selected; after the selected
/// one its successor is, or the last one.
pub proof fn one_tab_is_closed(
    app: &mut RshellApp,
    index: usize,
    folder: Uuid,
    fresh: Uuid,
    effects: Vec<Effect>,
)
    requires
        call_ensures(RshellApp::update_with, (app, AppMsg::CloseGroup(index), folder, fresh), effects),
    ensures
        ({
            let v = old(app)@;
            let w = final(app)@;
            let n = v.groups.len() as int;
            &&& index >= n ==> w == v && effects@.len() == 0
            &&& index < n ==> {
                let panes = v.groups[index as int].panes;
                &&& effects@.len() == panes.len()
                &&& forall|k: int|
                    0 <= k < panes.len() ==> (#[trigger] effects@[k])@ == EffectView::Shutdown(
                        panes[k].session,
                    )
                &&& w.groups.len() == n - 1
                &&& forall|t: int| 0 <= t < index ==> #[trigger] w.groups[t] == v.groups[t]
                &&& forall|t: int| index <= t < n - 1 ==> #[trigger] w.groups[t] == v.groups[t + 1]
                &&& w.dirty.groups && w.dirty.terminal
                &&& v.selected_group is None ==> w.selected_group is None
                &&& v.selected_group matches Some(i) ==> {
                    &&& n == 1 ==> w.selected_group is None
                    &&& n > 1 && 0 <= i < n && i != index ==> (w.selected_group matches Some(j)
                        && w.groups[j] == v.groups[i] && j == (if i < index {
                        i
                    } else {
                        i - 1
                    }))
                    &&& n > 1 && i == index ==> w.selected_group == Some(if index < n - 1 {
                        index as int
                    } else {
                        n - 2
                    })
                }
            }
        }),
{
    let e = app::effect_views(effects@);
    assert(effects@.len() == e.len());
    assert forall|k: int| 0 <= k < effects@.len() implies (#[trigger] effects@[k])@ == e[k] by {}
}

/// Closing a pane shuts down the session in the active pane of the selected tab, and takes
/// that pane out; the other panes keep their order, and so do the other tabs. The last pane
/// closes its tab.
pub proof fn active_pane_is_closed(
    app: &mut RshellApp,
    folder: Uuid,
    fresh: Uuid,
    effects: Vec<Effect>,
)
    requires
        call_ensures(RshellApp::update_with, (app, AppMsg::ClosePane, folder, fresh), effects),
    ensures
        ({
            let v = old(app)@;
            let w = final(app)@;
            let i = v.selected_group->0;
            let panes = v.groups[i].panes;
            let active = v.groups[i].active_pane;
            &&& v.selected_group is None ==> w == v && effects@.len() == 0
            &&& v.selected_group is Some && 0 <= i < v.groups.len() && panes.len() > 1 && 0 <= active
                < panes.len() ==> {
                &&& effects@.len() == 1 && effects@[0]@ == EffectView::Shutdown(
                    panes[active].session,
                )
                &&& w.groups.len() == v.groups.len()
                &&& forall|t: int|
                    0 <= t < v.groups.len() && t != i ==> #[trigger] w.groups[t] == v.groups[t]
                &&& w.groups[i].panes == panes.remove(active)
                &&& w.selected_group == v.selected_group
                &&& w.dirty.terminal
            }
            &&& v.selected_group is Some && 0 <= i < v.groups.len() && panes.len() == 1
                && v.groups[i].active_pane == 0 ==> {
                &&& effects@.len() == 1 && effects@[0]@ == EffectView::Shutdown(panes[0].session)
                &&& w.groups == v.groups.remove(i)
            }
        }),
{
    let e = app::effect_views(effects@);
    assert(effects@.len() == e.len());
    if e.len() > 0 {
        assert(effects@[0]@ == e[0]);
    }
}

/// Selecting a tab that is there selects it and nothing else changes but what is drawn; one
/// that is not there changes nothing.
pub proof fn tabs_are_selected(
    app: &mut RshellApp,
    index: usize,
    folder: Uuid,
    fresh: Uuid,
    effects: Vec<Effect>,
)
    requires
        call_ensures(RshellApp::update_with, (app, AppMsg::SelectGroup(index), folder, fresh), effects),
    ensures
        effects@.len() == 0,
        final(app)@.groups == old(app)@.groups,
        index < old(app).groups@.len() ==> final(app)@.selected_group == Some(index as int)
            && final(app).dirty.terminal,
        index >= old(app).groups@.len() ==> final(app)@ == old(app)@,
        final(app)@.store == old(app)@.store && final(app)@.draft == old(app)@.draft
            && final(app)@.toast == old(app)@.toast,
{
    assert(app::effect_views(effects@).len() == effects@.len());
    assert(old(app)@.groups.len() == old(app).groups@.len());
}

/// Focusing a pane of the selected tab makes it the active one; the panes stay as they are,
/// and so do the other tabs.
pub proof fn panes_are_focused(
    app: &mut RshellApp,
    index: usize,
    folder: Uuid,
    fresh: Uuid,
    effects: Vec<Effect>,
)
    requires
        call_ensures(RshellApp::update_with, (app, AppMsg::FocusPane(index), folder, fresh), effects),
    ensures
        effects@.len() == 0,
        ({
            let v = old(app)@;
            let w = final(app)@;
            let there = v.selected_group matches Some(i) && 0 <= i < v.groups.len() && index
                < v.groups[i].panes.len();
            &&& !there ==> w == v
            &&& there ==> {
                let i = v.selected_group->0;
                &&& w.groups.len() == v.groups.len()
                &&& forall|t: int|
                    0 <= t < v.groups.len() && t != i ==> #[trigger] w.groups[t] == v.groups[t]
                &&& w.groups[i].active_pane == index
                &&& w.groups[i].panes == v.groups[i].panes && w.groups[i].layout
                    == v.groups[i].layout
                &&& w.selected_group == v.selected_group
            }
        }),
{
    assert(app::effect_views(effects@).len() == effects@.len());
}

/// Shutting down shuts every session in a pane down and leaves no tab.
pub proof fn everything_is_shut_down(
    app: &mut RshellApp,
    session: u64,
    folder: Uuid,
    fresh: Uuid,
    effects: Vec<Effect>,
)
    requires
        call_ensures(RshellApp::update_with, (app, AppMsg::ShutdownAll, folder, fresh), effects),
    ensures
        final(app)@.groups.len() == 0,
        final(app)@.selected_group is None,
        final(app).dirty.groups && final(app).dirty.terminal,
        (exists|i: int|
            0 <= i < effects@.len() && (#[trigger] effects@[i])@ == EffectView::Shutdown(session))
            <==> exists|t: int, k: int|
            0 <= t < old(app)@.groups.len() && 0 <= k < old(app)@.groups[t].panes.len() && (
            #[trigger] old(app)@.groups[t].panes[k]).session == session,
        forall|i: int| 0 <= i < effects@.len() ==> (#[trigger] effects@[i])@ is Shutdown,
{
    let e = app::effect_views(effects@);
    let all = app::all_sessions(old(app)@.groups);
    assert(e == app::shutdown_each(all));
    assert forall|i: int| 0 <= i < effects@.len() implies (#[trigger] effects@[i])@
        == EffectView::Shutdown(all[i]) by {
        assert(e[i] == effects@[i]@);
    }
    session_is_in_a_pane(old(app)@.groups, session);
    if all.contains(session) {
        let i = all.index_of(session);
        assert(effects@[i]@ == EffectView::Shutdown(session));
    }
    if exists|i: int|
        0 <= i < effects@.len() && (#[trigger] effects@[i])@ == EffectView::Shutdown(session) {
        let i = choose|i: int|
            0 <= i < effects@.len() && (#[trigger] effects@[i])@ == EffectView::Shutdown(session);
        assert(all[i] == session);
        assert(all.contains(session));
    }
}

/// Selecting a connection selects it and opens it in the editor.
pub proof fn connections_are_selected(
    app: &mut RshellApp,
    id: Uuid,
    found: Option<&ConnectionProfile>,
    shown: ConnectionDraft,
    folder: Uuid,
    fresh: Uuid,
    effects: Vec<Effect>,
)
    requires
        call_ensures(RshellApp::update_with, (app, AppMsg::SelectConnection(id), folder, fresh), effects),
        call_ensures(ConnectionStore::connection, (&old(app).store, id), found),
    ensures
        effects@.len() == 0,
        final(app).selected_connection_id == Some(id),
        final(app).dirty.draft,
        found matches Some(p) && call_ensures(
            ConnectionDraft::from_profile,
            (&old(app).store, p),
            shown,
        ) ==> final(app).draft@ == shown@,
        found is None ==> final(app).draft@ == old(app).draft@,
        final(app)@.store == old(app)@.store && final(app)@.groups == old(app)@.groups
            && final(app)@.visible == old(app)@.visible,
{
    assert(app::effect_views(effects@).len() == effects@.len());
}

/// A new connection opens the editor with an empty draft, and no connection is selected.
pub proof fn new_connections_open_the_editor(
    app: &mut RshellApp,
    empty: ConnectionDraft,
    folder: Uuid,
    fresh: Uuid,
    effects: Vec<Effect>,
)
    requires
        call_ensures(RshellApp::update_with, (app, AppMsg::NewConnection, folder, fresh), effects),
        call_ensures(ConnectionDraft::empty, (), empty),
    ensures
        effects@.len() == 0,
        final(app).selected_connection_id is None,
        final(app).draft@ == empty@,
        final(app).visible.editor,
        final(app).visible.sidebar == old(app).visible.sidebar && final(app).visible.settings
            == old(app).visible.settings,
        final(app).dirty.connections && final(app).dirty.draft,
        final(app)@.store == old(app)@.store,
{
    assert(app::effect_views(effects@).len() == effects@.len());
}

/// Saving a draft puts the connection that it stands for into the store, selects it, closes
/// the editor and writes the store.
pub proof fn saved_drafts_are_in_the_store(
    app: &mut RshellApp,
    drafted: ConnectionProfile,
    store: &mut ConnectionStore,
    later: &mut ConnectionStore,
    folder: Uuid,
    fresh: Uuid,
    effects: Vec<Effect>,
)
    requires
        call_ensures(RshellApp::update_with, (app, AppMsg::SaveDraft, folder, fresh), effects),
        old(store)@ == old(app).store@,
        call_ensures(
            ConnectionDraft::into_profile_with,
            (old(app).draft, store, folder, fresh),
            drafted,
        ),
        *old(later) == *final(store),
        call_ensures(ConnectionStore::upsert, (later, drafted), ()),
    ensures
        final(app).store@ == final(later)@,
        final(app).selected_connection_id == Some(drafted.id),
        !final(app).visible.editor,
        final(app).dirty.connections && final(app).dirty.draft,
        final(app).draft@.id == Some(drafted.id) && final(app).draft@.name == drafted.name@
            && final(app).draft@.host == drafted.host@,
        effects@.len() == 1 && effects@[0]@ == (EffectView::SaveStore { report: true }),
        final(app)@.groups == old(app)@.groups,
{
    let e = app::effect_views(effects@);
    assert(effects@.len() == e.len());
    assert(effects@[0]@ == e[0]);
}

/// Deleting takes the selected connection out of the store, selects the first of the
/// others, writes the store and tells so. Without a selected connection nothing happens.
pub proof fn selected_connection_is_deleted(
    app: &mut RshellApp,
    found: Option<&ConnectionProfile>,
    store: &mut ConnectionStore,
    taken: Option<ConnectionProfile>,
    folder: Uuid,
    fresh: Uuid,
    effects: Vec<Effect>,
)
    requires
        call_ensures(RshellApp::update_with, (app, AppMsg::DeleteSelected, folder, fresh), effects),
        call_ensures(RshellApp::selected_profile, (&*old(app),), found),
    ensures
        found is None ==> final(app)@ == old(app)@ && effects@.len() == 0,
        found is Some && old(store)@ == old(app).store@ && call_ensures(
            ConnectionStore::remove,
            (store, (found->0).id),
            taken,
        ) ==> {
            &&& final(app).store@ == final(store)@
            &&& final(app).toast@ == "Deleted "@ + (found->0).name@
            &&& final(app)@.store.connections.len() == 0 ==> final(app).selected_connection_id is None && final(app).draft@.id is None
            &&& final(app)@.store.connections.len() > 0 ==> final(app).selected_connection_id == Some(
                final(app)@.store.connections[0].id,
            ) && final(app).draft@.id == final(app).selected_connection_id
            &&& final(app).dirty.connections && final(app).dirty.draft
            &&& effects@.len() == 1 && effects@[0]@ == (EffectView::SaveStore { report: true })
        },
{
    let e = app::effect_views(effects@);
    assert(effects@.len() == e.len());
    if e.len() > 0 {
        assert(effects@[0]@ == e[0]);
    }
    let w = final(app)@;
    if found is Some && w.store.connections.len() > 0 {
        let matching = connection::profile_has_id(w.store.connections[0].id);
        assert(matching(w.store.connections[0]));
        seqs::first_index_at(w.store.connections, matching, 0);
    }
}

/// The sidebar is shown where it was hidden, and hidden where it was shown.
pub proof fn sidebar_is_toggled(
    app: &mut RshellApp,
    folder: Uuid,
    fresh: Uuid,
    effects: Vec<Effect>,
)
    requires
        call_ensures(RshellApp::update_with, (app, AppMsg::ToggleSidebar, folder, fresh), effects),
    ensures
        effects@.len() == 0,
        final(app).visible.sidebar == !old(app).visible.sidebar,
        final(app).visible.editor == old(app).visible.editor && final(app).visible.settings == old(app).visible.settings,
        final(app).dirty.terminal,
        final(app)@.store == old(app)@.store && final(app)@.groups == old(app)@.groups
            && final(app)@.draft == old(app)@.draft,
{
    assert(app::effect_views(effects@).len() == effects@.len());
}

/// The editor is closed where it was open, and opened with the selected connection where it
/// was closed.
pub proof fn editor_is_toggled(
    app: &mut RshellApp,
    found: Option<&ConnectionProfile>,
    folder: Uuid,
    fresh: Uuid,
    effects: Vec<Effect>,
)
    requires
        call_ensures(RshellApp::update_with, (app, AppMsg::ToggleEditor, folder, fresh), effects),
        call_ensures(RshellApp::selected_profile, (&*old(app),), found),
    ensures
        effects@.len() == 0,
        final(app).visible.editor == !old(app).visible.editor,
        final(app).visible.sidebar == old(app).visible.sidebar && final(app).visible.settings == old(app).visible.settings,
        old(app).visible.editor || found is None ==> final(app).draft@ == old(app).draft@,
        !old(app).visible.editor && found is Some ==> final(app).draft@.id == Some((found->0).id)
            && final(app).draft@.host == (found->0).host@,
        !old(app).visible.editor ==> final(app).dirty.draft,
        final(app)@.store == old(app)@.store && final(app)@.groups == old(app)@.groups,
{
    assert(app::effect_views(effects@).len() == effects@.len());
}

/// The settings are shown where they were hidden, and hidden where they were shown; the
/// editor is closed.
pub proof fn settings_are_toggled(
    app: &mut RshellApp,
    folder: Uuid,
    fresh: Uuid,
    effects: Vec<Effect>,
)
    requires
        call_ensures(RshellApp::update_with, (app, AppMsg::OpenGlobalSettings, folder, fresh), effects),
    ensures
        effects@.len() == 0,
        final(app).visible.settings == !old(app).visible.settings,
        !final(app).visible.editor,
        final(app).visible.sidebar == old(app).visible.sidebar,
        final(app).dirty.settings,
        final(app)@.global_config == old(app)@.global_config,
{
    assert(app::effect_views(effects@).len() == effects@.len());
}

/// Broadcast mode is turned on where it was off, and off where it was on, and the message
/// line tells which.
pub proof fn broadcast_is_toggled(
    app: &mut RshellApp,
    folder: Uuid,
    fresh: Uuid,
    effects: Vec<Effect>,
)
    requires
        call_ensures(RshellApp::update_with, (app, AppMsg::ToggleBroadcast, folder, fresh), effects),
    ensures
        effects@.len() == 0,
        final(app).broadcast_mode == !old(app).broadcast_mode,
        final(app).broadcast_mode ==> final(app).toast@
            == "Broadcast ON — keys sent to all sessions"@,
        !final(app).broadcast_mode ==> final(app).toast@ == "Broadcast OFF"@,
        final(app)@.groups == old(app)@.groups && final(app)@.store == old(app)@.store,
{
    assert(app::effect_views(effects@).len() == effects@.len());
}

/// A change in the editor sets the field of the draft that it names, unless the editor is
/// just being filled.
pub proof fn edits_set_their_field(
    app: &mut RshellApp,
    msg: AppMsg,
    folder: Uuid,
    fresh: Uuid,
    effects: Vec<Effect>,
)
    requires
        call_ensures(RshellApp::update_with, (app, msg, folder, fresh), effects),
    ensures
        !old(app).updating.draft ==> match msg {
            AppMsg::DraftNameChanged(value) => final(app).draft@.name == value@,
            AppMsg::DraftFolderChanged(value) => final(app).draft@.folder == value@,
            AppMsg::DraftHostChanged(value) => final(app).draft@.host == value@,
            AppMsg::DraftPortChanged(value) => final(app).draft@.port == value,
            AppMsg::DraftUserChanged(value) => final(app).draft@.user == value@,
            AppMsg::DraftPasswordChanged(value) => final(app).draft@.password == value@,
            AppMsg::DraftIdentityChanged(value) => final(app).draft@.identity_file == value@,
            AppMsg::DraftCommandChanged(value) => final(app).draft@.remote_command == value@,
            AppMsg::DraftNoteChanged(value) => final(app).draft@.note == value@,
            AppMsg::DraftBackendChanged(value) => final(app).draft@.backend == value,
            AppMsg::DraftAcceptNewHostChanged(value) => final(app).draft@.accept_new_host == value,
            _ => true,
        },
{
}

/// A change in the editor changes nothing of the draft but the field that it names, and
/// nothing else at all.
pub proof fn edits_leave_the_rest(
    app: &mut RshellApp,
    msg: AppMsg,
    folder: Uuid,
    fresh: Uuid,
    effects: Vec<Effect>,
)
    requires
        call_ensures(RshellApp::update_with, (app, msg, folder, fresh), effects),
        is_edit(msg),
    ensures
        effects@.len() == 0,
        final(app)@ == (AppView { draft: final(app)@.draft, ..old(app)@ }),
        old(app).updating.draft ==> final(app)@.draft == old(app)@.draft,
        final(app).draft@.id == old(app).draft@.id,
        !(msg is DraftNameChanged) ==> final(app).draft@.name == old(app).draft@.name,
        !(msg is DraftFolderChanged) ==> final(app).draft@.folder == old(app).draft@.folder,
        !(msg is DraftHostChanged) ==> final(app).draft@.host == old(app).draft@.host,
        !(msg is DraftPortChanged) ==> final(app).draft@.port == old(app).draft@.port,
        !(msg is DraftUserChanged) ==> final(app).draft@.user == old(app).draft@.user,
        !(msg is DraftPasswordChanged) ==> final(app).draft@.password == old(app).draft@.password,
        !(msg is DraftIdentityChanged) ==> final(app).draft@.identity_file == old(app).draft@.identity_file,
        !(msg is DraftCommandChanged) ==> final(app).draft@.remote_command == old(app).draft@.remote_command,
        !(msg is DraftNoteChanged) ==> final(app).draft@.note == old(app).draft@.note,
        !(msg is DraftBackendChanged) ==> final(app).draft@.backend == old(app).draft@.backend,
        !(msg is DraftAcceptNewHostChanged) ==> final(app).draft@.accept_new_host == old(app).draft@.accept_new_host,
        !(msg is DraftTerminalChanged) ==> final(app).draft@.terminal == old(app).draft@.terminal,
{
    assert(app::effect_views(effects@).len() == effects@.len());
    match msg {
        AppMsg::DraftNameChanged(_) => {},
        AppMsg::DraftFolderChanged(_) => {},
        AppMsg::DraftHostChanged(_) => {},
        AppMsg::DraftPortChanged(_) => {},
        AppMsg::DraftUserChanged(_) => {},
        AppMsg::DraftPasswordChanged(_) => {},
        AppMsg::DraftIdentityChanged(_) => {},
        AppMsg::DraftCommandChanged(_) => {},
        AppMsg::DraftNoteChanged(_) => {},
        AppMsg::DraftBackendChanged(_) => {},
        AppMsg::DraftAcceptNewHostChanged(_) => {},
        AppMsg::DraftTerminalChanged(_) => {},
        _ => {},
    }
}

/// Whether a message is a change in the editor.
pub open spec fn is_edit(msg: AppMsg) -> bool {
    ||| msg is DraftNameChanged
    ||| msg is DraftFolderChanged
    ||| msg is DraftHostChanged
    ||| msg is DraftPortChanged
    ||| msg is DraftUserChanged
    ||| msg is DraftPasswordChanged
    ||| msg is DraftIdentityChanged
    ||| msg is DraftCommandChanged
    ||| msg is DraftNoteChanged
    ||| msg is DraftBackendChanged
    ||| msg is DraftAcceptNewHostChanged
    ||| msg is DraftTerminalChanged
}

/// A terminal setting that is changed in the editor is changed in the draft.
pub proof fn edited_terminal_settings_are_in_the_draft(
    app: &mut RshellApp,
    change: TerminalSettingChange,
    settings: &mut TerminalSettings,
    folder: Uuid,
    fresh: Uuid,
    effects: Vec<Effect>,
)
    requires
        call_ensures(RshellApp::update_with, (app, AppMsg::DraftTerminalChanged(change), folder, fresh), effects),
        old(settings)@ == old(app).draft@.terminal,
        call_ensures(TerminalSettings::apply, (settings, change), ()),
    ensures
        !old(app).updating.draft ==> final(app).draft@.terminal == final(settings)@,
{
}

/// A global terminal setting is changed as it is asked for, unless the form is just being
/// filled; the theme stays.
pub proof fn global_settings_are_changed(
    app: &mut RshellApp,
    change: TerminalSettingChange,
    settings: &mut TerminalSettings,
    folder: Uuid,
    fresh: Uuid,
    effects: Vec<Effect>,
)
    requires
        call_ensures(RshellApp::update_with, (app, AppMsg::GlobalTerminalChanged(change), folder, fresh), effects),
        old(settings)@ == old(app)@.global_config.terminal,
        call_ensures(TerminalSettings::apply, (settings, change), ()),
    ensures
        effects@.len() == 0,
        old(app).updating.settings ==> final(app)@ == old(app)@,
        !old(app).updating.settings ==> final(app)@.global_config.terminal == final(settings)@
            && final(app).dirty.settings,
        final(app)@.global_config.theme == old(app)@.global_config.theme,
        final(app)@.draft == old(app)@.draft,
{
    assert(app::effect_views(effects@).len() == effects@.len());
}

/// A theme that is chosen becomes that of the settings and of the window; the terminal
/// settings stay.
pub proof fn chosen_themes_are_applied(
    app: &mut RshellApp,
    theme: config::AppTheme,
    folder: Uuid,
    fresh: Uuid,
    effects: Vec<Effect>,
)
    requires
        call_ensures(RshellApp::update_with, (app, AppMsg::ThemeChanged(theme), folder, fresh), effects),
    ensures
        final(app)@.global_config.theme == theme,
        final(app)@.global_config.terminal == old(app)@.global_config.terminal,
        final(app).dirty.settings,
        effects@.len() == 1 && effects@[0]@ == EffectView::ApplyTheme(theme),
{
    let e = app::effect_views(effects@);
    assert(effects@.len() == e.len());
    assert(effects@[0]@ == e[0]);
}

/// Saving the settings writes them and changes nothing.
pub proof fn settings_are_written(
    app: &mut RshellApp,
    folder: Uuid,
    fresh: Uuid,
    effects: Vec<Effect>,
)
    requires
        call_ensures(RshellApp::update_with, (app, AppMsg::SaveGlobalSettings, folder, fresh), effects),
    ensures
        final(app)@ == old(app)@,
        effects@.len() == 1 && effects@[0]@ == EffectView::SaveSettings,
{
    let e = app::effect_views(effects@);
    assert(effects@.len() == e.len());
    assert(effects@[0]@ == e[0]);
}

/// The remote host of a pane is typed into that pane, where it has one; else the message
/// line tells that there is none.
pub proof fn remote_hosts_are_typed(
    app: &mut RshellApp,
    pane: usize,
    folder: Uuid,
    fresh: Uuid,
    effects: Vec<Effect>,
)
    requires
        call_ensures(RshellApp::update_with, (app, AppMsg::PasteRemoteIp(pane), folder, fresh), effects),
    ensures
        ({
            let v = old(app)@;
            let there = v.selected_group matches Some(i) && 0 <= i < v.groups.len() && pane
                < v.groups[i].panes.len();
            let p = v.groups[v.selected_group->0].panes[pane as int];
            &&& !there ==> final(app)@ == v && effects@.len() == 0
            &&& there && p.remote_host is Some ==> final(app)@ == v && effects@.len() == 1
                && effects@[0]@ == EffectView::SendText(p.session, p.remote_host->0)
            &&& there && p.remote_host is None ==> effects@.len() == 0 && final(app)@ == (AppView {
                toast: "No remote host for this session"@,
                ..v
            })
        }),
{
    let e = app::effect_views(effects@);
    assert(effects@.len() == e.len());
    if e.len() > 0 {
        assert(effects@[0]@ == e[0]);
    }
}

/// The text of a pane is opened in an editor from the session in that pane.
pub proof fn panes_are_opened_in_an_editor(
    app: &mut RshellApp,
    pane: usize,
    folder: Uuid,
    fresh: Uuid,
    effects: Vec<Effect>,
)
    requires
        call_ensures(RshellApp::update_with, (app, AppMsg::OpenInEditor(pane), folder, fresh), effects),
    ensures
        final(app)@ == old(app)@,
        ({
            let v = old(app)@;
            let there = v.selected_group matches Some(i) && 0 <= i < v.groups.len() && pane
                < v.groups[i].panes.len();
            &&& !there ==> effects@.len() == 0
            &&& there ==> effects@.len() == 1 && effects@[0]@ == EffectView::OpenInEditor(
                v.groups[v.selected_group->0].panes[pane as int].session,
            )
        }),
{
    let e = app::effect_views(effects@);
    assert(effects@.len() == e.len());
    if e.len() > 0 {
        assert(effects@[0]@ == e[0]);
    }
}

/// How something went is told in the message line, with the error where there is one, and
/// changes nothing else.
pub proof fn outcomes_are_told(
    app: &mut RshellApp,
    msg: AppMsg,
    folder: Uuid,
    fresh: Uuid,
    effects: Vec<Effect>,
)
    requires
        call_ensures(RshellApp::update_with, (app, msg, folder, fresh), effects),
        is_outcome(msg),
    ensures
        effects@.len() == 0,
        final(app)@ == (AppView { toast: final(app)@.toast, ..old(app)@ }),
        match msg {
            AppMsg::SessionFailed(error) => final(app).toast@ == "Failed: "@ + error@,
            AppMsg::LocalFailed(target, error) => final(app).toast@ == (if target is Split {
                "Split failed: "@
            } else {
                "Local shell failed: "@
            }) + error@,
            AppMsg::StoreSaved => final(app).toast@ == "Saved "@ + text::decimal(
                old(app)@.store.connections.len(),
            ) + " connections"@,
            AppMsg::StoreSaveFailed(error) => final(app).toast@ == "Save failed: "@ + error@,
            AppMsg::SettingsSaved => final(app).toast@ == "Settings saved"@,
            AppMsg::SettingsSaveFailed(error) => final(app).toast@ == "Failed to save settings: "@
                + error@,
            _ => final(app)@ == old(app)@,
        },
{
    assert(app::effect_views(effects@).len() == effects@.len());
    match msg {
        AppMsg::SessionFailed(_) => {},
        AppMsg::LocalFailed(..) => {},
        AppMsg::StoreSaved => {},
        AppMsg::StoreSaveFailed(_) => {},
        AppMsg::SettingsSaved => {},
        AppMsg::SettingsSaveFailed(_) => {},
        _ => {},
    }
}

/// Whether a message tells how something went, or asks for nothing.
pub open spec fn is_outcome(msg: AppMsg) -> bool {
    ||| msg is SessionFailed
    ||| msg is LocalFailed
    ||| msg is StoreSaved
    ||| msg is StoreSaveFailed
    ||| msg is SettingsSaved
    ||| msg is SettingsSaveFailed
    ||| msg is RefreshSessions
    ||| msg is ToggleFullscreen
}

/// The application starts with the store that was read, or with a sample in it where it
/// holds no connection; with the first connection selected and in the editor, which is
/// closed; without tabs, and with everything to be drawn. It applies the theme, writes a
/// sample, and asks for a local session with the global settings.
pub proof fn starts_with_what_was_read(
    store: ConnectionStore,
    global_config: GlobalConfig,
    fresh: Uuid,
    r: (RshellApp, Vec<Effect>),
    settings: ResolvedTerminalSettings,
)
    requires
        call_ensures(RshellApp::start_with, (store, global_config, fresh), r),
        call_ensures(TerminalSettings::resolve, (&global_config.terminal,), settings),
    ensures
        store@.connections.len() > 0 ==> r.0.store@ == store@,
        store@.connections.len() == 0 ==> r.0@.store.connections.len() == 1 && {
            let p = r.0@.store.connections[0];
            p.id == fresh && p.name == "Demo host"@ && p.host == "127.0.0.1"@ && p.port == 22
        },
        r.0@.global_config == global_config@,
        r.0.selected_connection_id == Some(r.0@.store.connections[0].id),
        r.0.draft@.id == r.0.selected_connection_id,
        r.0@.groups.len() == 0 && r.0.selected_group is None,
        r.0.visible.sidebar && !r.0.visible.editor && !r.0.visible.settings,
        !r.0.broadcast_mode,
        r.0.toast@ == "Ready"@,
        r.0.dirty.connections && r.0.dirty.groups && r.0.dirty.terminal && r.0.dirty.draft
            && r.0.dirty.settings,
        !r.0.updating.draft && !r.0.updating.settings,
        r.1@.len() >= 2,
        r.1@[0]@ == EffectView::ApplyTheme(global_config.theme),
        r.1@.last()@ == EffectView::LaunchLocal(LocalTarget::Startup, settings@),
        store@.connections.len() == 0 ==> r.1@.len() == 3 && r.1@[1]@ == (EffectView::SaveStore {
            report: false,
        }),
        store@.connections.len() > 0 ==> r.1@.len() == 2,
{
    let read = store@;
    let e = app::effect_views(r.1@);
    assert(r.1@.len() == e.len());
    assert forall|i: int| 0 <= i < r.1@.len() implies (#[trigger] r.1@[i])@ == e[i] by {}
    if read.connections.len() == 0 {
        sample_is_alone(read, fresh);
    }
    let s = r.0@.store;
    let matching = connection::profile_has_id(s.connections[0].id);
    assert(matching(s.connections[0]));
    seqs::first_index_at(s.connections, matching, 0);
}

/// A sample that is put into a store without connections is the only one.
proof fn sample_is_alone(read: connection::StoreView, fresh: Uuid)
    requires
        read.connections.len() == 0,
    ensures
        ({
            let t = connection::upserted(read, app::sample_profile(fresh));
            t.connections.len() == 1 && t.connections[0] == app::sample_profile(fresh)
        }),
{
    let p = app::sample_profile(fresh);
    let normal = connection::normalized_profile(p);
    reveal_strlit("Demo host");
    reveal_strlit("127.0.0.1");
    reveal_strlit("Sample profile");
    assert(text::trimmed(p.name) == p.name) by {
        assert(!text::is_white_space(p.name[0]) && !text::is_white_space(p.name[8]));
    }
    assert(text::trimmed(p.host) == p.host) by {
        assert(!text::is_white_space(p.host[0]) && !text::is_white_space(p.host[8]));
    }
    assert(text::trimmed(p.note) == p.note) by {
        assert(!text::is_white_space(p.note[0]) && !text::is_white_space(p.note[13]));
    }
    assert(normal =~= p);
    seqs::first_index_found(read.connections, connection::profile_has_id(p.id));
    let put = connection::replaced(read.connections, p);
    assert(put =~= seq![p]);
    let normals = Seq::new(put.len(), |i: int| connection::normalized_profile(put[i]));
    assert(normals =~= seq![p]);
    assert(connection::is_usable()(p));
    seqs::filter_all(normals, connection::is_usable());
    let folders = connection::tidy_folders(read.folders);
    seqs::arranged_members(normals, connection::profile_keys(folders, normals));
    let t = connection::upserted(read, p);
    assert(normals[0] == p);
    assert(normals.contains(p));
    assert(t.connections.contains(p));
    let i = t.connections.index_of(p);
    assert(i == 0);
}

/// What is to be drawn stays so until it is drawn: no message takes that back.
#[verifier::spinoff_prover]
#[verifier::rlimit(50)]
pub proof fn nothing_to_draw_is_forgotten(v: AppView, msg: AppMsg, folder: Uuid, fresh: Uuid)
    ensures
        v.dirty.connections ==> app::after(v, msg, folder, fresh).0.dirty.connections,
        v.dirty.groups ==> app::after(v, msg, folder, fresh).0.dirty.groups,
        v.dirty.terminal ==> app::after(v, msg, folder, fresh).0.dirty.terminal,
        v.dirty.draft ==> app::after(v, msg, folder, fresh).0.dirty.draft,
        v.dirty.settings ==> app::after(v, msg, folder, fresh).0.dirty.settings,
{
    // One message at a time.
    if app::edited_draft(v.draft, msg) is None && app::notice(
        v.store.connections.len(),
        msg,
    ) is None {
        match msg {
            AppMsg::SelectConnection(_) => {},
            AppMsg::NewConnection => {},
            AppMsg::SaveDraft => {},
            AppMsg::DeleteSelected => {},
            AppMsg::ToggleSidebar => {},
            AppMsg::ToggleEditor => {},
            AppMsg::LaunchSelected => {},
            AppMsg::SelectGroup(_) => {},
            AppMsg::CloseGroup(_) => {},
            AppMsg::SplitHorizontal | AppMsg::SplitVertical => {},
            AppMsg::ClosePane => {},
            AppMsg::FocusPane(_) => {},
            AppMsg::PaneKeyPress(..) => {},
            AppMsg::SessionLaunched(..) => {},
            AppMsg::LocalLaunched(..) => {},
            AppMsg::ShutdownAll => {},
            AppMsg::ToggleBroadcast => {},
            AppMsg::PasteRemoteIp(_) => {},
            AppMsg::GlobalTerminalChanged(_) => {},
            AppMsg::ThemeChanged(_) => {},
            AppMsg::OpenGlobalSettings => {},
            _ => {},
        }
    }
}

} // verus!
