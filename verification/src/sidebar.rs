//! The list of connections in the sidebar, by folder.

use uuid::Uuid;
use vstd::prelude::*;
use crate::connection::{ConnectionProfile, ConnectionStore, ProfileView, StoreView};
use crate::connection;
use crate::ids;
use crate::seqs;
use crate::text;

verus! {

/// A connection in the sidebar.
#[derive(Debug)]
pub struct SidebarRow {
    pub id: Uuid,
    pub name: String,
    pub meta: String,
    pub selected: bool,
}

/// `SidebarRow` with its texts as sequences of characters.
#[verifier::ext_equal]
pub struct RowView {
    pub id: Uuid,
    pub name: Seq<char>,
    pub meta: Seq<char>,
    pub selected: bool,
}

impl View for SidebarRow {
    type V = RowView;

    open spec fn view(&self) -> RowView {
        RowView { id: self.id, name: self.name@, meta: self.meta@, selected: self.selected }
    }
}

impl SidebarRow {
    /// The text by which the row is recognized: the identifier of its connection, which
    /// `row_connection` reads back.
    pub fn key(&self) -> (r: String)
        ensures
            r@ == ids::printed_id(self.id),
            ids::parsed_id(r@) == Some(self.id),
    {
        ids::print_id(self.id)
    }
}

/// The connection of the row with the given key; none where there is no key, or it is no
/// identifier.
pub fn row_connection(key: Option<&str>) -> (r: Option<Uuid>)
    ensures
        r == (match key {
            Some(key) => ids::parsed_id(key@),
            None => None,
        }),
{
    match key {
        Some(key) => ids::parse_id(key),
        None => None,
    }
}

/// A folder in the sidebar and the connections in it.
#[derive(Debug)]
pub struct SidebarSection {
    pub title: String,
    pub rows: Vec<SidebarRow>,
}

/// The title of the section that a connection is listed in.
pub open spec fn section_title(s: StoreView, p: ProfileView) -> Seq<char> {
    match connection::folder_name_of(s, p.folder_id) {
        Some(name) => name,
        None => "Ungrouped"@,
    }
}

/// How a connection is listed: its name, and host, port and backend.
pub open spec fn row_of(p: ProfileView, selected: Option<Uuid>) -> RowView {
    RowView {
        id: p.id,
        name: p.name,
        meta: connection::host_label_of(p) + " · "@ + p.backend.caption(),
        selected: selected == Some(p.id),
    }
}

/// The condition that a connection is listed under a title.
pub open spec fn is_titled(s: StoreView, title: Seq<char>) -> spec_fn(ProfileView) -> bool {
    |p: ProfileView| section_title(s, p) == title
}

/// The connections in the order in which they are listed.
pub open spec fn listed(s: StoreView) -> Seq<ProfileView> {
    connection::sorted_profiles(s.folders, s.connections)
}

/// The rows of the section with the given title.
pub open spec fn section_rows(s: StoreView, title: Seq<char>, selected: Option<Uuid>) -> Seq<RowView> {
    let profiles = listed(s).filter(is_titled(s, title));
    Seq::new(profiles.len(), |i: int| row_of(profiles[i], selected))
}

/// Rows by their views.
pub open spec fn row_views(rows: Seq<SidebarRow>) -> Seq<RowView> {
    Seq::new(rows.len(), |i: int| rows[i]@)
}

/// Whether titles stand in order and none is there twice.
pub open spec fn titles_ascend(titles: Seq<Seq<char>>) -> bool {
    forall|i: int, j: int|
        0 <= i < j < titles.len() ==> text::text_lt(#[trigger] titles[i], #[trigger] titles[j])
}

/// The titles of sections.
pub open spec fn section_titles(sections: Seq<SidebarSection>) -> Seq<Seq<char>> {
    Seq::new(sections.len(), |i: int| sections[i].title@)
}

/// Adds a title to titles in order, unless it is there.
fn add_title(titles: &mut Vec<String>, title: String)
    requires
        titles_ascend(old(titles).deep_view()),
    ensures
        titles_ascend(final(titles).deep_view()),
        forall|t: Seq<char>| #[trigger]
            final(titles).deep_view().contains(t) <==> old(titles).deep_view().contains(t) || t
                == title@,
{
    let ghost before = titles.deep_view();
    let mut i: usize = 0;
    while i < titles.len() && text::text_before(titles[i].as_str(), title.as_str())
        invariant
            before == titles.deep_view(),
            titles@ == old(titles)@,
            i <= titles@.len(),
            forall|j: int| 0 <= j < i ==> text::text_lt(#[trigger] before[j], title@),
        decreases titles@.len() - i,
    {
        i = i + 1;
    }
    if i < titles.len() && text::same_text(titles[i].as_str(), title.as_str()) {
        assert(before[i as int] == title@);
        assert(before.contains(title@));
        return;
    }
    let ghost added = title@;
    titles.insert(i, title);
    let ghost now = titles.deep_view();
    proof {
        assert(now =~= before.insert(i as int, added));
        if i < before.len() {
            text::text_lt_total(before[i as int], added);
            assert(text::text_lt(added, before[i as int]));
        }
        assert forall|a: int, b: int| 0 <= a < b < now.len() implies text::text_lt(
            #[trigger] now[a],
            #[trigger] now[b],
        ) by {
            let x = if a < i { a } else { a - 1 };
            let y = if b < i { b } else { b - 1 };
            if a == i {
                assert(now[b] == before[b - 1]);
                if b - 1 > i {
                    assert(text::text_lt(before[i as int], before[b - 1]));
                    text::text_lt_transitive(added, before[i as int], before[b - 1]);
                }
            } else if b == i {
                assert(now[a] == before[a]);
            } else {
                assert(now[a] == before[x] && now[b] == before[y]);
            }
        }
        assert forall|t: Seq<char>| #[trigger] now.contains(t) <==> before.contains(t) || t
            == added by {
            if now.contains(t) {
                let k = now.index_of(t);
                if k != i {
                    assert(before[if k < i { k } else { k - 1 }] == t);
                }
            }
            if before.contains(t) {
                let k = before.index_of(t);
                assert(now[if k < i { k } else { k + 1 }] == t);
            }
            assert(now[i as int] == added);
        }
    }
}

fn title_for(store: &ConnectionStore, profile: &ConnectionProfile) -> (r: String)
    ensures
        r@ == section_title(store@, profile@),
{
    match store.folder_name(profile.folder_id) {
        Some(name) => name.to_owned(),
        None => "Ungrouped".to_owned(),
    }
}

fn row_for(profile: &ConnectionProfile, selected: Option<Uuid>) -> (r: SidebarRow)
    ensures
        r@ == row_of(profile@, selected),
{
    let host = profile.host_label();
    let start = text::joined(host.as_str(), " · ");
    SidebarRow {
        id: profile.id,
        name: profile.name.clone(),
        meta: text::joined(start.as_str(), profile.backend.label()),
        selected: ids::same_optional_id(selected, Some(profile.id)),
    }
}

fn rows_titled(
    store: &ConnectionStore,
    profiles: &Vec<&ConnectionProfile>,
    title: &String,
    selected: Option<Uuid>,
) -> (rows: Vec<SidebarRow>)
    requires
        profiles@.len() == listed(store@).len(),
        forall|i: int| 0 <= i < profiles@.len() ==> (#[trigger] profiles@[i])@ == listed(store@)[i],
    ensures
        row_views(rows@) == section_rows(store@, title@, selected),
{
    let ghost all = listed(store@);
    let ghost p = is_titled(store@, title@);
    let mut rows: Vec<SidebarRow> = Vec::new();
    let mut i: usize = 0;
    assert(all.take(0).filter(p) =~= Seq::empty()) by {
        reveal(Seq::filter);
    }
    while i < profiles.len()
        invariant
            all == listed(store@),
            p == is_titled(store@, title@),
            profiles@.len() == all.len(),
            forall|j: int| 0 <= j < profiles@.len() ==> (#[trigger] profiles@[j])@ == all[j],
            i <= profiles@.len(),
            rows@.len() == all.take(i as int).filter(p).len(),
            forall|j: int|
                0 <= j < rows@.len() ==> (#[trigger] rows@[j])@ == row_of(
                    all.take(i as int).filter(p)[j],
                    selected,
                ),
        decreases profiles@.len() - i,
    {
        proof {
            seqs::filter_step(all, p, i as int);
        }
        let profile = profiles[i];
        let own = title_for(store, profile);
        if text::same_text(own.as_str(), title.as_str()) {
            assert(p(all[i as int]));
            rows.push(row_for(profile, selected));
        } else {
            assert(!p(all[i as int]));
        }
        i = i + 1;
    }
    assert(all.take(i as int) =~= all);
    assert(row_views(rows@) =~= section_rows(store@, title@, selected));
    rows
}

/// The sections of the sidebar: one for each folder that connections lie in, by name,
/// with those connections in order.
pub fn sidebar_sections(store: &ConnectionStore, selected: Option<Uuid>) -> (r: Vec<SidebarSection>)
    ensures
        titles_ascend(section_titles(r@)),
        forall|t: Seq<char>| #[trigger]
            section_titles(r@).contains(t) <==> exists|k: int|
                0 <= k < listed(store@).len() && section_title(
                    store@,
                    #[trigger] listed(store@)[k],
                ) == t,
        forall|i: int|
            0 <= i < r@.len() ==> row_views((#[trigger] r@[i]).rows@) == section_rows(
                store@,
                r@[i].title@,
                selected,
            ),
{
    let ghost all = listed(store@);
    let profiles = store.sorted_connections();
    proof {
        crate::order::stable_order_sorts(
            connection::profile_keys(store@.folders, store@.connections),
        );
    }
    let mut titles: Vec<String> = Vec::new();
    let mut n: usize = 0;
    while n < profiles.len()
        invariant
            all == listed(store@),
            profiles@.len() == all.len(),
            forall|j: int| 0 <= j < profiles@.len() ==> (#[trigger] profiles@[j])@ == all[j],
            n <= profiles@.len(),
            titles_ascend(titles.deep_view()),
            forall|t: Seq<char>| #[trigger]
                titles.deep_view().contains(t) <==> exists|k: int|
                    0 <= k < n && section_title(store@, #[trigger] all[k]) == t,
        decreases profiles@.len() - n,
    {
        let title = title_for(store, profiles[n]);
        let ghost before = titles.deep_view();
        let ghost added = title@;
        add_title(&mut titles, title);
        proof {
            assert(section_title(store@, all[n as int]) == added);
            assert forall|t: Seq<char>| #[trigger] titles.deep_view().contains(t) <==> exists|k: int|
                0 <= k < n + 1 && section_title(store@, #[trigger] all[k]) == t by {
                if before.contains(t) {
                    let k = choose|k: int|
                        0 <= k < n && section_title(store@, #[trigger] all[k]) == t;
                    assert(section_title(store@, all[k]) == t);
                }
            }
        }
        n = n + 1;
    }
    let mut r: Vec<SidebarSection> = Vec::new();
    let mut i: usize = 0;
    while i < titles.len()
        invariant
            profiles@.len() == listed(store@).len(),
            forall|j: int|
                0 <= j < profiles@.len() ==> (#[trigger] profiles@[j])@ == listed(store@)[j],
            i <= titles@.len(),
            r@.len() == i,
            forall|j: int| 0 <= j < i ==> (#[trigger] r@[j]).title@ == titles@[j]@,
            forall|j: int|
                0 <= j < i ==> row_views((#[trigger] r@[j]).rows@) == section_rows(
                    store@,
                    r@[j].title@,
                    selected,
                ),
        decreases titles@.len() - i,
    {
        let rows = rows_titled(store, &profiles, &titles[i], selected);
        r.push(SidebarSection { title: titles[i].clone(), rows });
        i = i + 1;
    }
    assert(section_titles(r@) =~= titles.deep_view());
    r
}

/// Every connection is listed, in the section of its title.
pub proof fn every_connection_is_listed(s: StoreView, p: ProfileView, selected: Option<Uuid>)
    requires
        s.connections.contains(p),
    ensures
        section_rows(s, section_title(s, p), selected).contains(row_of(p, selected)),
{
    let keys = connection::profile_keys(s.folders, s.connections);
    seqs::arranged_members(s.connections, keys);
    assert(listed(s).contains(p));
    let titled = is_titled(s, section_title(s, p));
    seqs::filter_members(listed(s), titled);
    let kept = listed(s).filter(titled);
    assert(kept.contains(p));
    let i = kept.index_of(p);
    assert(section_rows(s, section_title(s, p), selected)[i] == row_of(p, selected));
}

/// Every row of a section is of a connection whose folder has the name of the section, or
/// of one without a folder that is there in the section of those. It shows the name of the
/// connection, its host and port, and how it is made; the selected one alone is marked.
pub proof fn rows_are_of_their_section(
    store: &ConnectionStore,
    selected: Option<Uuid>,
    r: Vec<SidebarSection>,
    i: int,
    k: int,
)
    requires
        call_ensures(sidebar_sections, (store, selected), r),
        0 <= i < r@.len(),
        0 <= k < r@[i].rows@.len(),
    ensures
        ({
            let row = r@[i].rows@[k];
            exists|p: ProfileView|
                {
                    &&& #[trigger] store@.connections.contains(p)
                    &&& row.id == p.id
                    &&& row.name@ == p.name
                    &&& row.meta@ == text::trimmed(p.host) + ":"@ + text::decimal(p.port as nat)
                        + " · "@ + (match p.backend {
                        connection::ConnectionBackend::SystemOpenSsh => "System OpenSSH"@,
                        connection::ConnectionBackend::WezTermSsh => "WezTerm SSH"@,
                    })
                    &&& row.selected <==> selected == Some(p.id)
                    &&& match connection::folder_name_of(store@, p.folder_id) {
                        Some(name) => r@[i].title@ == name,
                        None => r@[i].title@ == "Ungrouped"@,
                    }
                }
        }),
{
    let s = store@;
    let title = r@[i].title@;
    let titled = is_titled(s, title);
    let kept = listed(s).filter(titled);
    assert(row_views(r@[i].rows@) == section_rows(s, title, selected));
    seqs::filter_members(listed(s), titled);
    let p = kept[k];
    assert(kept.contains(p));
    assert(titled(p));
    seqs::arranged_members(s.connections, connection::profile_keys(s.folders, s.connections));
    assert(s.connections.contains(p));
    assert(row_views(r@[i].rows@)[k] == row_of(p, selected));
    assert(r@[i].rows@[k]@ == row_of(p, selected));
}

/// There is a section with a title if and only if some connection is listed under it.
pub proof fn sections_are_those_of_connections(
    store: &ConnectionStore,
    selected: Option<Uuid>,
    r: Vec<SidebarSection>,
    title: Seq<char>,
)
    requires
        call_ensures(sidebar_sections, (store, selected), r),
    ensures
        section_titles(r@).contains(title) ==> exists|k: int|
            0 <= k < listed(store@).len() && section_title(store@, #[trigger] listed(store@)[k])
                == title,
        (exists|k: int|
            0 <= k < listed(store@).len() && section_title(store@, #[trigger] listed(store@)[k])
                == title) ==> section_titles(r@).contains(title),
{
    assert(section_titles(r@).contains(title) ==> exists|k: int|
        0 <= k < listed(store@).len() && section_title(store@, #[trigger] listed(store@)[k])
            == title);
    assert((exists|k: int|
        0 <= k < listed(store@).len() && section_title(store@, #[trigger] listed(store@)[k])
            == title) ==> section_titles(r@).contains(title));
}

/// Every connection is shown in some section, and the sections stand in the order of their
/// titles, none of them twice.
pub proof fn every_connection_has_a_row(
    store: &ConnectionStore,
    selected: Option<Uuid>,
    r: Vec<SidebarSection>,
    p: ProfileView,
)
    requires
        call_ensures(sidebar_sections, (store, selected), r),
        store@.connections.contains(p),
    ensures
        exists|i: int, k: int|
            0 <= i < r@.len() && 0 <= k < r@[i].rows@.len() && (#[trigger] r@[i].rows@[k]).id == p.id
                && r@[i].rows@[k].name@ == p.name,
        forall|i: int, j: int|
            #![trigger r@[i], r@[j]]
            0 <= i < j < r@.len() ==> text::text_lt(r@[i].title@, r@[j].title@),
{
    let s = store@;
    let title = section_title(s, p);
    every_connection_is_listed(s, p, selected);
    seqs::arranged_members(s.connections, connection::profile_keys(s.folders, s.connections));
    assert(listed(s).contains(p));
    let n = listed(s).index_of(p);
    assert(0 <= n < listed(s).len() && listed(s)[n] == p);
    assert(section_title(store@, listed(store@)[n]) == title);
    sections_are_those_of_connections(store, selected, r, title);
    assert(section_titles(r@).contains(title));
    let i = section_titles(r@).index_of(title);
    assert(r@[i].title@ == title);
    let rows = section_rows(s, title, selected);
    let k = rows.index_of(row_of(p, selected));
    assert(row_views(r@[i].rows@) == rows);
    assert(r@[i].rows@[k]@ == row_of(p, selected));
    assert(r@[i].rows@[k].id == p.id);
    assert forall|a: int, b: int| #![trigger r@[a], r@[b]] 0 <= a < b < r@.len() implies text::text_lt(
        r@[a].title@,
        r@[b].title@,
    ) by {
        assert(section_titles(r@)[a] == r@[a].title@ && section_titles(r@)[b] == r@[b].title@);
    }
}

/// In a section the connections stand in the order of the list of all connections.
pub proof fn rows_keep_the_order(
    store: &ConnectionStore,
    selected: Option<Uuid>,
    r: Vec<SidebarSection>,
    all: Vec<&ConnectionProfile>,
    i: int,
    a: int,
    b: int,
)
    requires
        call_ensures(sidebar_sections, (store, selected), r),
        call_ensures(ConnectionStore::sorted_connections, (store,), all),
        0 <= i < r@.len(),
        0 <= a < b < r@[i].rows@.len(),
    ensures
        exists|x: int, y: int|
            0 <= x < y < all@.len() && (#[trigger] all@[x]).id == r@[i].rows@[a].id && (
            #[trigger] all@[y]).id == r@[i].rows@[b].id,
{
    let s = store@;
    let title = r@[i].title@;
    let titled = is_titled(s, title);
    let kept = listed(s).filter(titled);
    assert(row_views(r@[i].rows@) == section_rows(s, title, selected));
    let places = seqs::filter_keeps_order(listed(s), titled, a, b);
    crate::order::stable_order_sorts(connection::profile_keys(s.folders, s.connections));
    assert(row_views(r@[i].rows@)[a] == row_of(kept[a], selected));
    assert(row_views(r@[i].rows@)[b] == row_of(kept[b], selected));
    assert(r@[i].rows@[a]@ == row_of(kept[a], selected));
    assert(r@[i].rows@[b]@ == row_of(kept[b], selected));
    assert(all@[places.0].id == r@[i].rows@[a].id);
    assert(all@[places.1].id == r@[i].rows@[b].id);
}

/// A row leads back to its connection.
pub proof fn rows_lead_to_their_connection(row: &SidebarRow, key: String, k: &str, r: Option<Uuid>)
    requires
        call_ensures(SidebarRow::key, (row,), key),
        k@ == key@,
        call_ensures(row_connection, (Some(k),), r),
    ensures
        r == Some(row.id),
{
}

} // verus!
