//! What the window shows of the state of the application.

use vstd::prelude::*;
use crate::app::{AppView, Dirty, RshellApp, Updating};
use crate::terminal::{SessionPhase, SessionSnapshot, SnapshotView};
use crate::text;

verus! {

/// Which buttons of the toolbar can be pressed.
#[derive(Debug, Clone, Copy, PartialEq, Eq, Structural)]
pub struct Toolbar {
    pub connect: bool,
    pub split: bool,
    pub close_pane: bool,
}

/// Which parts of the window are to be filled or drawn anew now.
#[derive(Debug, Clone, Copy, PartialEq, Eq, Structural)]
pub struct Refresh {
    pub connections: bool,
    pub groups: bool,
    pub terminal: bool,
    pub draft: bool,
    /// Whether the settings are to be shown or hidden.
    pub settings: bool,
    /// Whether the settings are to be filled before they are shown.
    pub fill_settings: bool,
}

/// A tab in the tab bar.
#[derive(Debug)]
pub struct TabLabel {
    pub label: String,
    pub active: bool,
}

/// The number of live sessions among those in the given phases.
pub open spec fn live_sessions(phases: Seq<SessionPhase>) -> nat
    decreases phases.len(),
{
    if phases.len() == 0 {
        0
    } else {
        live_sessions(phases.drop_last()) + (if phases.last().is_live() {
            1nat
        } else {
            0
        })
    }
}

/// The number of live sessions among those in the given phases.
pub fn live_count(phases: &Vec<SessionPhase>) -> (r: usize)
    ensures
        r == live_sessions(phases@),
        r <= phases@.len(),
{
    let mut r: usize = 0;
    let mut i: usize = 0;
    assert(phases@.take(0) =~= Seq::empty());
    while i < phases.len()
        invariant
            i <= phases@.len(),
            r == live_sessions(phases@.take(i as int)),
            r <= i,
        decreases phases@.len() - i,
    {
        assert(phases@.take(i + 1).drop_last() =~= phases@.take(i as int));
        if phases[i].live() {
            r = r + 1;
        }
        i = i + 1;
    }
    assert(phases@.take(i as int) =~= phases@);
    r
}

/// The line in the status bar: of the active pane, where there is one, its phase, name,
/// status and the number of panes beside it; else the number of tabs and of live
/// sessions.
pub open spec fn status_line(v: AppView, active: Option<SnapshotView>, live: nat) -> Seq<char> {
    match (v.current_group(), active) {
        (Some(g), Some(snapshot)) if 0 <= g.active_pane < g.panes.len() => {
            snapshot.phase.caption() + "  ·  "@ + g.panes[g.active_pane].name + "  ·  "@
                + snapshot.status_line + "  ·  Panes: "@ + text::decimal(g.panes.len())
        },
        _ => "Sessions: "@ + text::decimal(v.groups.len()) + "  ·  Live: "@ + text::decimal(live),
    }
}

/// An optional snapshot by its view.
pub open spec fn optional_snapshot(s: Option<SessionSnapshot>) -> Option<SnapshotView> {
    match s {
        Some(s) => Some(s@),
        None => None,
    }
}

/// The label of a tab: the name of its first pane, or its number.
pub open spec fn tab_label(v: AppView, i: int) -> Seq<char> {
    if v.groups[i].panes.len() > 0 {
        v.groups[i].panes[0].name
    } else {
        "Tab "@ + text::decimal((i + 1) as nat)
    }
}

/// The padding around the cells of a pane, in pixels.
pub const PANE_PADDING: i32 = 4;

/// `a` divided by `b`, towards zero.
pub open spec fn quotient(a: int, b: int) -> int {
    if a >= 0 {
        a / b
    } else {
        -((-a) / b)
    }
}

/// The cells that fit in `pixels` pixels less the padding, as a number of 16 bits.
pub open spec fn cells_in(pixels: int, cell: int) -> int {
    quotient(pixels - 2 * PANE_PADDING, cell) % 0x1_0000
}

fn count_cells(pixels: i32, cell: i32) -> (r: u16)
    requires
        pixels > 0,
        cell > 0,
    ensures
        r == cells_in(pixels as int, cell as int),
{
    if pixels >= 8 {
        let count: u32 = (pixels - 8) as u32 / cell as u32;
        (count % 0x1_0000) as u16
    } else {
        let count: u32 = (8 - pixels) as u32 / cell as u32;
        assert(count <= 7) by {
            assert((8 - pixels) / cell as int <= 7) by (nonlinear_arith)
                requires
                    0 < pixels < 8,
                    cell > 0,
            ;
        }
        if count == 0 {
            0
        } else {
            (0x1_0000 - count) as u16
        }
    }
}

/// The columns and rows of a pane, given its size and that of a cell in pixels; none
/// while either is not known yet, or where no cell fits.
pub fn pane_cells(width: i32, height: i32, cell_width: i32, cell_height: i32) -> (r: Option<
    (u16, u16),
>)
    ensures
        r == (if width > 0 && height > 0 && cell_width > 0 && cell_height > 0 && cells_in(
            width as int,
            cell_width as int,
        ) > 0 && cells_in(height as int, cell_height as int) > 0 {
            Some(
                (
                    cells_in(width as int, cell_width as int) as u16,
                    cells_in(height as int, cell_height as int) as u16,
                ),
            )
        } else {
            None
        }),
{
    if width > 0 && height > 0 && cell_width > 0 && cell_height > 0 {
        let cols = count_cells(width, cell_width);
        let rows = count_cells(height, cell_height);
        if cols > 0 && rows > 0 {
            return Some((cols, rows));
        }
    }
    None
}

/// Whether a pane has to be told its size: it differs from the last one it was told.
pub fn needs_resize(last: Option<(u16, u16)>, size: (u16, u16)) -> (r: bool)
    ensures
        r == (size != (match last {
            Some(told) => told,
            None => (0u16, 0u16),
        })),
{
    let told = match last {
        Some(told) => told,
        None => (0, 0),
    };
    size.0 != told.0 || size.1 != told.1
}

impl RshellApp {
    /// Which buttons of the toolbar can be pressed.
    pub fn toolbar(&self) -> (r: Toolbar)
        ensures
            r.connect == (self@.selected_connection_id is Some),
            r.split == (match self@.current_group() {
                Some(g) => g.can_grow(),
                None => false,
            }),
            r.close_pane == (self@.selected_group is Some),
    {
        let split = match self.current_group() {
            Some(group) => group.can_split(),
            None => false,
        };
        Toolbar {
            connect: self.selected_connection_id.is_some(),
            split,
            close_pane: self.selected_group.is_some(),
        }
    }

    /// The session in the active pane of the selected tab.
    pub fn active_session(&self) -> (r: Option<u64>)
        ensures
            r == (match self@.current_group() {
                Some(g) => if 0 <= g.active_pane < g.panes.len() {
                    Some(g.panes[g.active_pane].session)
                } else {
                    None
                },
                None => None,
            }),
    {
        match self.current_group() {
            Some(group) => {
                if group.active_pane < group.panes.len() {
                    Some(group.panes[group.active_pane].session)
                } else {
                    None
                }
            },
            None => None,
        }
    }

    /// The line in the status bar, given what is shown of the session in the active pane
    /// and the phases of all sessions.
    pub fn status_text(&self, active: &Option<SessionSnapshot>, phases: &Vec<SessionPhase>) -> (r:
        String)
        ensures
            r@ == status_line(self@, optional_snapshot(*active), live_sessions(phases@)),
    {
        if let Some(group) = self.current_group() {
            if let Some(snapshot) = active {
                if group.active_pane < group.panes.len() {
                    let mut r = snapshot.phase.label().to_owned();
                    r.append("  ·  ");
                    r.append(group.panes[group.active_pane].name.as_str());
                    r.append("  ·  ");
                    r.append(snapshot.status_line.as_str());
                    r.append("  ·  Panes: ");
                    let count = text::decimal_of(group.panes.len() as u64);
                    r.append(count.as_str());
                    return r;
                }
            }
        }
        let mut r = "Sessions: ".to_owned();
        let tabs = text::decimal_of(self.groups.len() as u64);
        r.append(tabs.as_str());
        r.append("  ·  Live: ");
        let live = text::decimal_of(live_count(phases) as u64);
        r.append(live.as_str());
        r
    }

    /// The tabs in the tab bar.
    pub fn tab_labels(&self) -> (r: Vec<TabLabel>)
        ensures
            r@.len() == self@.groups.len(),
            forall|i: int|
                0 <= i < r@.len() ==> (#[trigger] r@[i]).label@ == tab_label(self@, i)
                    && r@[i].active == (self@.selected_group == Some(i)),
    {
        let mut r: Vec<TabLabel> = Vec::new();
        let mut i: usize = 0;
        while i < self.groups.len()
            invariant
                i <= self.groups@.len(),
                r@.len() == i,
                forall|j: int|
                    0 <= j < i ==> (#[trigger] r@[j]).label@ == tab_label(self@, j) && r@[j].active
                        == (self@.selected_group == Some(j)),
            decreases self.groups@.len() - i,
        {
            let label = if self.groups[i].panes.len() > 0 {
                self.groups[i].panes[0].name.clone()
            } else {
                let number = text::decimal_of(i as u64 + 1);
                text::joined("Tab ", number.as_str())
            };
            let active = match self.selected_group {
                Some(selected) => selected == i,
                None => false,
            };
            r.push(TabLabel { label, active });
            i = i + 1;
        }
        r
    }

    /// What is to be filled or drawn anew. Until `end_refresh`, the forms count as being
    /// filled.
    pub fn begin_refresh(&mut self) -> (r: Refresh)
        ensures
            r == (Refresh {
                connections: old(self)@.dirty.connections,
                groups: old(self)@.dirty.groups,
                terminal: old(self)@.dirty.terminal,
                draft: old(self)@.dirty.draft,
                settings: old(self)@.dirty.settings,
                fill_settings: old(self)@.dirty.settings && old(self)@.visible.settings,
            }),
            final(self)@ == (AppView {
                updating: Updating { draft: r.draft, settings: r.fill_settings },
                ..old(self)@
            }),
    {
        let fill_settings = self.dirty.settings && self.visible.settings;
        self.updating = Updating { draft: self.dirty.draft, settings: fill_settings };
        Refresh {
            connections: self.dirty.connections,
            groups: self.dirty.groups,
            terminal: self.dirty.terminal,
            draft: self.dirty.draft,
            settings: self.dirty.settings,
            fill_settings,
        }
    }

    /// Everything has been filled and drawn.
    pub fn end_refresh(&mut self)
        ensures
            final(self)@ == (AppView {
                updating: Updating { draft: false, settings: false },
                dirty: Dirty {
                    connections: false,
                    groups: false,
                    terminal: false,
                    draft: false,
                    settings: false,
                },
                ..old(self)@
            }),
    {
        self.updating = Updating { draft: false, settings: false };
        self.dirty =
        Dirty { connections: false, groups: false, terminal: false, draft: false, settings: false };
    }
}

/// The live sessions are those that neither failed nor ended.
pub proof fn live_sessions_are_counted(phases: &Vec<SessionPhase>, r: usize)
    requires
        call_ensures(live_count, (phases,), r),
    ensures
        r == phases@.filter(
            |p: SessionPhase| !(p == SessionPhase::Error || p == SessionPhase::Exited),
        ).len(),
{
    live_are_filtered(phases@);
}

proof fn live_are_filtered(phases: Seq<SessionPhase>)
    ensures
        live_sessions(phases) == phases.filter(
            |p: SessionPhase| !(p == SessionPhase::Error || p == SessionPhase::Exited),
        ).len(),
    decreases phases.len(),
{
    reveal(Seq::filter);
    if phases.len() > 0 {
        live_are_filtered(phases.drop_last());
    }
}

/// A pane has as many columns and rows as fit in its size less the padding, and no more,
/// as long as their number fits in 16 bits.
pub proof fn as_many_cells_as_fit(
    width: i32,
    height: i32,
    cell_width: i32,
    cell_height: i32,
    r: Option<(u16, u16)>,
)
    requires
        call_ensures(pane_cells, (width, height, cell_width, cell_height), r),
    ensures
        width <= 0 || height <= 0 || cell_width <= 0 || cell_height <= 0 ==> r is None,
        0 < cell_width && 0 < cell_height && 8 <= width < 8 + 0x1_0000 * cell_width && 8 <= height
            < 8 + 0x1_0000 * cell_height ==> {
            &&& r is Some <==> width - 8 >= cell_width && height - 8 >= cell_height
            &&& r matches Some((cols, rows)) ==> {
                &&& cols * cell_width <= width - 8 < (cols + 1) * cell_width
                &&& rows * cell_height <= height - 8 < (rows + 1) * cell_height
            }
        },
{
    if 0 < cell_width && 0 < cell_height && 8 <= width < 8 + 0x1_0000 * cell_width && 8 <= height < 8
        + 0x1_0000 * cell_height {
        fits_in(width - 8, cell_width as int);
        fits_in(height - 8, cell_height as int);
    }
}

proof fn fits_in(pixels: int, cell: int)
    requires
        0 <= pixels < 0x1_0000 * cell,
        0 < cell,
    ensures
        0 <= pixels / cell < 0x1_0000,
        (pixels / cell) * cell <= pixels < (pixels / cell + 1) * cell,
        pixels / cell > 0 <==> pixels >= cell,
{
    let q = pixels / cell;
    let m = pixels % cell;
    vstd::arithmetic::div_mod::lemma_fundamental_div_mod(pixels, cell);
    vstd::arithmetic::div_mod::lemma_mod_bound(pixels, cell);
    assert(pixels == q * cell + m) by (nonlinear_arith)
        requires
            pixels == cell * q + m,
    ;
    assert(q < 0x1_0000 && 0 <= q) by (nonlinear_arith)
        requires
            pixels == q * cell + m,
            0 <= m < cell,
            0 <= pixels < 0x1_0000 * cell,
    ;
    assert((q + 1) * cell == q * cell + cell) by (nonlinear_arith);
    assert(q > 0 <==> pixels >= cell) by (nonlinear_arith)
        requires
            pixels == q * cell + m,
            0 <= m < cell,
            0 <= q,
    ;
}

/// A pane is told its size when that differs from the one it was told last, and not again
/// until it changes. A pane that was told none counts as one without cells.
pub proof fn sizes_are_told_once(last: Option<(u16, u16)>, size: (u16, u16), r: bool, again: bool)
    requires
        call_ensures(needs_resize, (last, size), r),
        call_ensures(needs_resize, (Some(size), size), again),
    ensures
        !again,
        last matches Some(told) ==> (r <==> told.0 != size.0 || told.1 != size.1),
        last is None ==> (r <==> size.0 > 0 || size.1 > 0),
{
}

/// A connection can be launched where one is selected; a tab can be split where it is
/// selected and has less than four panes; a pane can be closed where a tab is selected.
pub proof fn buttons_can_be_pressed(app: &RshellApp, r: Toolbar)
    requires
        call_ensures(RshellApp::toolbar, (app,), r),
    ensures
        r.connect <==> app.selected_connection_id is Some,
        r.close_pane <==> app.selected_group is Some,
        r.split <==> (app.selected_group matches Some(i) && i < app.groups@.len()
            && app.groups@[i as int].panes@.len() < 4),
{
}

/// The session in the active pane is that of the selected tab.
pub proof fn active_session_is_of_the_selected_tab(app: &RshellApp, r: Option<u64>)
    requires
        call_ensures(RshellApp::active_session, (app,), r),
    ensures
        r matches Some(session) ==> (app.selected_group matches Some(i) && i < app.groups@.len() && {
            let g = app.groups@[i as int];
            g.active_pane < g.panes@.len() && g.panes@[g.active_pane as int].session == session
        }),
        r is None ==> !(app.selected_group matches Some(i) && i < app.groups@.len() && {
            let g = app.groups@[i as int];
            g.active_pane < g.panes@.len()
        }),
{
}

/// The status line tells of the session in the active pane: it begins with the phase and
/// holds, after it, the name of the pane, the status and the number of panes. Without one
/// it tells the number of tabs and of live sessions.
pub proof fn status_tells_of_the_active_pane(
    app: &RshellApp,
    active: &Option<SessionSnapshot>,
    phases: &Vec<SessionPhase>,
    r: String,
    session: Option<u64>,
    live: usize,
)
    requires
        call_ensures(RshellApp::status_text, (app, active, phases), r),
        call_ensures(RshellApp::active_session, (app,), session),
        call_ensures(live_count, (phases,), live),
    ensures
        session is Some && *active is Some ==> {
            let g = app.groups@[app.selected_group->0 as int];
            let s = (*active)->0;
            r@ == s.phase.caption() + "  ·  "@ + g.panes@[g.active_pane as int].name@ + "  ·  "@
                + s.status_line@ + "  ·  Panes: "@ + text::decimal(g.panes@.len())
        },
        session is None || *active is None ==> r@ == "Sessions: "@ + text::decimal(app.groups@.len())
            + "  ·  Live: "@ + text::decimal(live as nat),
{
}

/// A tab is called after its first pane, and the selected tab alone is marked.
pub proof fn tabs_are_called_after_their_first_pane(app: &RshellApp, r: Vec<TabLabel>, i: int)
    requires
        call_ensures(RshellApp::tab_labels, (app,), r),
        0 <= i < app.groups@.len(),
    ensures
        r@.len() == app.groups@.len(),
        app.groups@[i].panes@.len() > 0 ==> r@[i].label@ == app.groups@[i].panes@[0].name@,
        app.groups@[i].panes@.len() == 0 ==> r@[i].label@ == "Tab "@ + text::decimal((i + 1) as nat),
        r@[i].active <==> (app.selected_group matches Some(k) && k == i),
{
    assert(app@.groups[i].panes.len() == app.groups@[i].panes@.len());
    if app.groups@[i].panes@.len() > 0 {
        assert(app@.groups[i].panes[0] == app.groups@[i].panes@[0]@);
    }
}

/// What is dirty is refreshed, and once that is done nothing is dirty and no form counts as
/// being filled. Nothing else changes.
pub proof fn refreshing_cleans_up(
    app: &mut RshellApp,
    r: Refresh,
    later: &mut RshellApp,
)
    requires
        call_ensures(RshellApp::begin_refresh, (app,), r),
        *old(later) == *final(app),
        call_ensures(RshellApp::end_refresh, (later,), ()),
    ensures
        r.connections == old(app).dirty.connections,
        r.groups == old(app).dirty.groups,
        r.terminal == old(app).dirty.terminal,
        r.draft == old(app).dirty.draft,
        r.settings == old(app).dirty.settings,
        r.fill_settings <==> old(app).dirty.settings && old(app).visible.settings,
        final(app).updating.draft == r.draft,
        final(app).updating.settings == r.fill_settings,
        !final(later).dirty.connections && !final(later).dirty.groups
            && !final(later).dirty.terminal && !final(later).dirty.draft
            && !final(later).dirty.settings,
        !final(later).updating.draft && !final(later).updating.settings,
        final(later)@.store == old(app)@.store,
        final(later)@.global_config == old(app)@.global_config,
        final(later)@.draft == old(app)@.draft,
        final(later)@.groups == old(app)@.groups,
        final(later)@.selected_group == old(app)@.selected_group,
        final(later)@.selected_connection_id == old(app)@.selected_connection_id,
        final(later)@.toast == old(app)@.toast,
        final(later)@.visible == old(app)@.visible,
        final(later)@.broadcast_mode == old(app)@.broadcast_mode,
{
}

} // verus!
