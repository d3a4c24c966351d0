//! Tabs and the panes that they are split into.

use vstd::prelude::*;
use crate::config;

verus! {

/// How the panes of a tab are laid out.
#[derive(Debug, Clone, Copy, PartialEq, Eq, Structural)]
pub enum SplitLayout {
    Single,
    HSplit,
    VSplit,
    TopBottom3,
    Grid,
}

/// A pane: the session that is shown in it, by its number.
#[derive(Debug)]
pub struct TerminalPane {
    pub name: String,
    pub session: u64,
    pub remote_host: Option<String>,
}

/// `TerminalPane` with its texts as sequences of characters.
#[verifier::ext_equal]
pub struct PaneView {
    pub name: Seq<char>,
    pub session: u64,
    pub remote_host: Option<Seq<char>>,
}

impl View for TerminalPane {
    type V = PaneView;

    open spec fn view(&self) -> PaneView {
        PaneView {
            name: self.name@,
            session: self.session,
            remote_host: config::text_view(self.remote_host),
        }
    }
}

/// A tab: its panes, how they are laid out, and which one is active.
#[derive(Debug)]
pub struct TerminalGroup {
    pub layout: SplitLayout,
    pub panes: Vec<TerminalPane>,
    pub active_pane: usize,
}

/// `TerminalGroup` with its panes by their views.
#[verifier::ext_equal]
pub struct GroupView {
    pub layout: SplitLayout,
    pub panes: Seq<PaneView>,
    pub active_pane: int,
}

/// Panes by their views.
pub open spec fn pane_views(panes: Seq<TerminalPane>) -> Seq<PaneView> {
    Seq::new(panes.len(), |i: int| panes[i]@)
}

impl View for TerminalGroup {
    type V = GroupView;

    open spec fn view(&self) -> GroupView {
        GroupView {
            layout: self.layout,
            panes: pane_views(self.panes@),
            active_pane: self.active_pane as int,
        }
    }
}

/// Whether a layout has as many places as there are panes.
pub open spec fn layout_fits(layout: SplitLayout, panes: int) -> bool {
    match layout {
        SplitLayout::Single => panes == 1,
        SplitLayout::HSplit | SplitLayout::VSplit => panes == 2,
        SplitLayout::TopBottom3 => panes == 3,
        SplitLayout::Grid => panes == 4,
    }
}

impl GroupView {
    /// Whether a tab is in order: one to four panes, laid out in as many places, and one
    /// of them active.
    pub open spec fn well_formed(self) -> bool {
        &&& layout_fits(self.layout, self.panes.len() as int)
        &&& 0 <= self.active_pane < self.panes.len()
    }

    /// Whether one more pane finds a place.
    pub open spec fn can_grow(self) -> bool {
        self.panes.len() < 4
    }

    /// The tab with one more pane, which becomes active.
    pub open spec fn with_pane(self, pane: PaneView, horizontal: bool) -> GroupView {
        let panes = self.panes.push(pane);
        GroupView {
            layout: if panes.len() == 1 {
                SplitLayout::Single
            } else if panes.len() == 2 {
                if horizontal {
                    SplitLayout::HSplit
                } else {
                    SplitLayout::VSplit
                }
            } else if panes.len() == 3 {
                SplitLayout::TopBottom3
            } else {
                SplitLayout::Grid
            },
            panes,
            active_pane: panes.len() - 1,
        }
    }

    /// The tab without the pane at `index`. The active pane stays at its place, as far
    /// as there is one.
    pub open spec fn without_pane(self, index: int) -> GroupView
        recommends
            0 <= index < self.panes.len(),
    {
        let panes = self.panes.remove(index);
        GroupView {
            layout: if panes.len() <= 1 {
                SplitLayout::Single
            } else if panes.len() == 2 {
                if self.layout == SplitLayout::VSplit {
                    SplitLayout::VSplit
                } else {
                    SplitLayout::HSplit
                }
            } else if panes.len() == 3 {
                SplitLayout::TopBottom3
            } else {
                SplitLayout::Grid
            },
            panes,
            active_pane: if self.active_pane < panes.len() {
                self.active_pane
            } else if panes.len() > 0 {
                panes.len() - 1
            } else {
                0
            },
        }
    }
}

/// A tab with a single pane.
pub open spec fn single_group(pane: PaneView) -> GroupView {
    GroupView { layout: SplitLayout::Single, panes: seq![pane], active_pane: 0 }
}

impl TerminalGroup {
    /// A tab with a single pane.
    pub fn single(pane: TerminalPane) -> (r: Self)
        ensures
            r@ == single_group(pane@),
    {
        let mut panes: Vec<TerminalPane> = Vec::new();
        let ghost view = pane@;
        panes.push(pane);
        assert(pane_views(panes@) =~= seq![view]);
        TerminalGroup { layout: SplitLayout::Single, panes, active_pane: 0 }
    }

    /// Whether one more pane finds a place.
    pub fn can_split(&self) -> (r: bool)
        ensures
            r == self@.can_grow(),
    {
        self.panes.len() < 4
    }

    /// Adds a pane, which becomes active.
    pub fn add_pane(&mut self, pane: TerminalPane, horizontal: bool)
        ensures
            final(self)@ == old(self)@.with_pane(pane@, horizontal),
    {
        let ghost before = self.panes@;
        let ghost view = pane@;
        self.panes.push(pane);
        assert(pane_views(self.panes@) =~= pane_views(before).push(view));
        self.layout =
        match self.panes.len() {
            1 => SplitLayout::Single,
            2 => {
                if horizontal {
                    SplitLayout::HSplit
                } else {
                    SplitLayout::VSplit
                }
            },
            3 => SplitLayout::TopBottom3,
            _ => SplitLayout::Grid,
        };
        self.active_pane = self.panes.len() - 1;
    }

    /// Takes a pane out; gives its session, which is to be shut down. Where there is no
    /// such pane, nothing happens.
    pub fn remove_pane(&mut self, index: usize) -> (r: Option<u64>)
        ensures
            index < old(self)@.panes.len() ==> final(self)@ == old(self)@.without_pane(
                index as int,
            ) && r == Some(old(self)@.panes[index as int].session),
            index >= old(self)@.panes.len() ==> final(self)@ == old(self)@ && r is None,
    {
        if index >= self.panes.len() {
            return None;
        }
        let ghost before = self.panes@;
        let pane = self.panes.remove(index);
        assert(pane_views(self.panes@) =~= pane_views(before).remove(index as int));
        self.layout =
        match self.panes.len() {
            0 | 1 => SplitLayout::Single,
            2 => match self.layout {
                SplitLayout::VSplit => SplitLayout::VSplit,
                _ => SplitLayout::HSplit,
            },
            3 => SplitLayout::TopBottom3,
            _ => SplitLayout::Grid,
        };
        if self.active_pane >= self.panes.len() {
            self.active_pane = self.panes.len().saturating_sub(1);
        }
        Some(pane.session)
    }

    /// Whether the layout has as many places as there are panes.
    pub fn fits(&self) -> (r: bool)
        ensures
            r == layout_fits(self@.layout, self@.panes.len() as int),
    {
        match self.layout {
            SplitLayout::Single => self.panes.len() == 1,
            SplitLayout::HSplit | SplitLayout::VSplit => self.panes.len() == 2,
            SplitLayout::TopBottom3 => self.panes.len() == 3,
            SplitLayout::Grid => self.panes.len() == 4,
        }
    }

    /// How the panes are arranged on the screen, where there are any.
    pub fn arrangement(&self) -> (r: Option<Arrangement>)
        requires
            self@.panes.len() > 0 ==> layout_fits(self@.layout, self@.panes.len() as int),
        ensures
            r == (if self@.panes.len() == 0 {
                None
            } else {
                Some(arrangement_of(self@.layout))
            }),
    {
        if self.panes.len() == 0 {
            return None;
        }
        let first = Box::new(Arrangement::Pane(0));
        Some(
            match self.layout {
                SplitLayout::Single => Arrangement::Pane(0),
                SplitLayout::HSplit => Arrangement::SideBySide(
                    first,
                    Box::new(Arrangement::Pane(1)),
                ),
                SplitLayout::VSplit => Arrangement::Stacked(first, Box::new(Arrangement::Pane(1))),
                SplitLayout::TopBottom3 => Arrangement::Stacked(
                    first,
                    Box::new(
                        Arrangement::SideBySide(
                            Box::new(Arrangement::Pane(1)),
                            Box::new(Arrangement::Pane(2)),
                        ),
                    ),
                ),
                SplitLayout::Grid => Arrangement::Stacked(
                    Box::new(Arrangement::SideBySide(first, Box::new(Arrangement::Pane(1)))),
                    Box::new(
                        Arrangement::SideBySide(
                            Box::new(Arrangement::Pane(2)),
                            Box::new(Arrangement::Pane(3)),
                        ),
                    ),
                ),
            },
        )
    }
}

/// Panes on the screen: a single one, by its place in the tab, or two parts.
#[derive(Debug)]
pub enum Arrangement {
    Pane(usize),
    SideBySide(Box<Arrangement>, Box<Arrangement>),
    Stacked(Box<Arrangement>, Box<Arrangement>),
}

/// How the panes of a layout are arranged: one; two side by side or stacked; one above
/// two; two above two.
pub open spec fn arrangement_of(layout: SplitLayout) -> Arrangement {
    let first = Box::new(Arrangement::Pane(0));
    let second = Box::new(Arrangement::Pane(1));
    let third = Box::new(Arrangement::Pane(2));
    let fourth = Box::new(Arrangement::Pane(3));
    match layout {
        SplitLayout::Single => *first,
        SplitLayout::HSplit => Arrangement::SideBySide(first, second),
        SplitLayout::VSplit => Arrangement::Stacked(first, second),
        SplitLayout::TopBottom3 => Arrangement::Stacked(
            first,
            Box::new(Arrangement::SideBySide(second, third)),
        ),
        SplitLayout::Grid => Arrangement::Stacked(
            Box::new(Arrangement::SideBySide(first, second)),
            Box::new(Arrangement::SideBySide(third, fourth)),
        ),
    }
}

/// The panes in an arrangement, in reading order.
pub open spec fn panes_in(a: Arrangement) -> Seq<int>
    decreases a,
{
    match a {
        Arrangement::Pane(i) => seq![i as int],
        Arrangement::SideBySide(x, y) => panes_in(*x) + panes_in(*y),
        Arrangement::Stacked(x, y) => panes_in(*x) + panes_in(*y),
    }
}

/// Every pane is shown once, in order.
pub proof fn every_pane_is_shown(layout: SplitLayout, panes: nat)
    requires
        layout_fits(layout, panes as int),
    ensures
        panes_in(arrangement_of(layout)) == Seq::new(panes, |i: int| i),
{
    reveal_with_fuel(panes_in, 4);
    assert(panes_in(arrangement_of(layout)) =~= Seq::new(panes, |i: int| i));
}

/// Splitting a tab that is in order and has room leaves it in order.
pub proof fn splitting_keeps_order(g: GroupView, pane: PaneView, horizontal: bool)
    requires
        g.well_formed(),
        g.can_grow(),
    ensures
        g.with_pane(pane, horizontal).well_formed(),
{
}

/// Taking one of several panes out of a tab that is in order leaves it in order.
pub proof fn closing_keeps_order(g: GroupView, index: int)
    requires
        g.well_formed(),
        g.panes.len() > 1,
        0 <= index < g.panes.len(),
    ensures
        g.without_pane(index).well_formed(),
{
}

/// A new pane stands behind the others, which stay as they are, and becomes active.
pub proof fn new_panes_come_last(group: &mut TerminalGroup, pane: TerminalPane, horizontal: bool)
    requires
        call_ensures(TerminalGroup::add_pane, (group, pane, horizontal), ()),
    ensures
        final(group)@.panes.len() == old(group)@.panes.len() + 1,
        forall|i: int|
            0 <= i < old(group)@.panes.len() ==> #[trigger] final(group)@.panes[i] == old(group)@.panes[i],
        final(group)@.panes.last() == pane@,
        final(group).active_pane == old(group)@.panes.len(),
{
}

/// Splitting a single pane horizontally puts the two side by side, splitting it otherwise
/// puts them one above the other, the new pane second in either case.
pub proof fn splits_go_their_way(
    group: &mut TerminalGroup,
    pane: TerminalPane,
    horizontal: bool,
    r: Option<Arrangement>,
)
    requires
        old(group)@.panes.len() == 1,
        call_ensures(TerminalGroup::add_pane, (group, pane, horizontal), ()),
        call_ensures(TerminalGroup::arrangement, (&*final(group),), r),
    ensures
        horizontal ==> (r matches Some(Arrangement::SideBySide(a, b)) && *a == Arrangement::Pane(0)
            && *b == Arrangement::Pane(1)),
        !horizontal ==> (r matches Some(Arrangement::Stacked(a, b)) && *a == Arrangement::Pane(0)
            && *b == Arrangement::Pane(1)),
{
}

/// Three panes are one above two, and four are two above two, in the order of the tab.
pub proof fn more_panes_are_stacked(
    group: &mut TerminalGroup,
    pane: TerminalPane,
    horizontal: bool,
    r: Option<Arrangement>,
)
    requires
        old(group)@.panes.len() == 2 || old(group)@.panes.len() == 3,
        call_ensures(TerminalGroup::add_pane, (group, pane, horizontal), ()),
        call_ensures(TerminalGroup::arrangement, (&*final(group),), r),
    ensures
        r matches Some(Arrangement::Stacked(top, bottom)) && {
            &&& old(group)@.panes.len() == 2 ==> *top == Arrangement::Pane(0) && is_pair(*bottom, 1, 2)
            &&& old(group)@.panes.len() == 3 ==> is_pair(*top, 0, 1) && is_pair(*bottom, 2, 3)
        },
{
}

/// Whether an arrangement is the two panes side by side.
pub open spec fn is_pair(a: Arrangement, left: usize, right: usize) -> bool {
    a matches Arrangement::SideBySide(x, y) && *x == Arrangement::Pane(left) && *y
        == Arrangement::Pane(right)
}

/// A tab shows its panes, each once and in order, as long as it is in order; without panes
/// it shows nothing.
pub proof fn tabs_show_their_panes(group: &TerminalGroup, r: Option<Arrangement>)
    requires
        call_ensures(TerminalGroup::arrangement, (group,), r),
        group@.panes.len() > 0 ==> layout_fits(group.layout, group@.panes.len() as int),
    ensures
        r is None <==> group@.panes.len() == 0,
        r matches Some(a) ==> panes_in(a) == Seq::new(group@.panes.len(), |i: int| i),
{
    if group@.panes.len() > 0 {
        every_pane_is_shown(group.layout, group@.panes.len());
    }
}

/// A tab can be split up to four panes.
pub proof fn four_panes_are_the_most(group: &TerminalGroup, r: bool)
    requires
        call_ensures(TerminalGroup::can_split, (group,), r),
    ensures
        r <==> group@.panes.len() <= 3,
{
}

/// Taking a pane out gives its session and leaves the other panes in their order. The
/// active pane stays at its place, or is the last one where that place is gone. Where there
/// is no such pane, nothing changes.
pub proof fn one_pane_is_taken_out(group: &mut TerminalGroup, index: usize, r: Option<u64>)
    requires
        call_ensures(TerminalGroup::remove_pane, (group, index), r),
    ensures
        index >= old(group)@.panes.len() ==> r is None && final(group)@ == old(group)@,
        index < old(group)@.panes.len() ==> {
            let before = old(group)@.panes;
            let now = final(group)@.panes;
            &&& r == Some(before[index as int].session)
            &&& now.len() == before.len() - 1
            &&& forall|i: int| 0 <= i < index ==> #[trigger] now[i] == before[i]
            &&& forall|i: int| index <= i < now.len() ==> #[trigger] now[i] == before[i + 1]
            &&& old(group).active_pane < now.len() ==> final(group).active_pane == old(group).active_pane
            &&& old(group).active_pane >= now.len() && now.len() > 0 ==> final(group).active_pane
                == now.len() - 1
        },
{
}

/// Adding a pane and taking it out again leaves the panes of a tab as they were.
pub proof fn a_split_taken_back(
    group: &mut TerminalGroup,
    pane: TerminalPane,
    horizontal: bool,
    later: &mut TerminalGroup,
    r: Option<u64>,
)
    requires
        call_ensures(TerminalGroup::add_pane, (group, pane, horizontal), ()),
        *old(later) == *final(group),
        call_ensures(TerminalGroup::remove_pane, (later, final(group).active_pane), r),
    ensures
        final(later)@.panes == old(group)@.panes,
        r == Some(pane.session),
{
    assert(final(later)@.panes =~= old(group)@.panes);
}

/// Closing one of three panes leaves the other two side by side; closing one of two leaves
/// a single pane.
pub proof fn closing_changes_the_layout(group: &mut TerminalGroup, index: usize, r: Option<u64>)
    requires
        call_ensures(TerminalGroup::remove_pane, (group, index), r),
        old(group)@.well_formed(),
        index < old(group)@.panes.len(),
    ensures
        final(group)@.panes.len() > 0 ==> layout_fits(
            final(group).layout,
            final(group)@.panes.len() as int,
        ),
        final(group)@.panes.len() == 2 ==> final(group).layout == SplitLayout::HSplit,
{
}

/// A layout has as many places as its arrangement shows panes.
pub proof fn layouts_have_their_places(group: &TerminalGroup, r: bool)
    requires
        call_ensures(TerminalGroup::fits, (group,), r),
    ensures
        r <==> panes_in(arrangement_of(group.layout)).len() == group@.panes.len(),
{
    reveal_with_fuel(panes_in, 4);
}

} // verus!
