//! What holds of the connection store as a whole.

use uuid::Uuid;
use vstd::prelude::*;
use crate::connection::{
    ConnectionProfile, ConnectionStore, FolderView, ProfileView, StoreView,
};
use crate::connection;
use crate::order;
use crate::seqs;
use crate::text;

verus! {

/// Whether keys stand in order.
pub open spec fn in_order(keys: Seq<order::SortKey>) -> bool {
    forall|i: int, j: int|
        0 <= i < j < keys.len() ==> !order::key_lt(#[trigger] keys[j], #[trigger] keys[i])
}

/// The keys that the items of a sorted sequence have.
pub open spec fn arranged_keys(keys: Seq<order::SortKey>) -> Seq<order::SortKey> {
    order::arranged(keys, order::stable_order(keys))
}

/// After sorting, the keys stand in order.
pub proof fn arranged_in_order(keys: Seq<order::SortKey>)
    ensures
        in_order(arranged_keys(keys)),
        arranged_keys(keys).len() == keys.len(),
{
    order::stable_order_sorts(keys);
    let order = order::stable_order(keys);
    let sorted = arranged_keys(keys);
    assert forall|i: int, j: int| 0 <= i < j < sorted.len() implies !order::key_lt(
        #[trigger] sorted[j],
        #[trigger] sorted[i],
    ) by {
        assert(order::precedes(keys, order[i], order[j]));
        order::key_lt_irreflexive(sorted[i]);
        if order::key_lt(sorted[j], sorted[i]) && order::key_lt(sorted[i], sorted[j]) {
            order::key_lt_transitive(sorted[i], sorted[j], sorted[i]);
        }
    }
}

/// Items whose keys stand in order stay where they are.
pub proof fn arranged_unchanged<T>(items: Seq<T>, keys: Seq<order::SortKey>)
    requires
        items.len() == keys.len(),
        in_order(keys),
    ensures
        order::arranged(items, order::stable_order(keys)) == items,
{
    order::stable_order_of_sorted(keys);
    assert(order::arranged(items, order::stable_order(keys)) =~= items);
}

/// Normalizing a normalized profile changes nothing.
pub proof fn normalize_profile_idempotent(p: ProfileView)
    ensures
        connection::normalized_profile(connection::normalized_profile(p))
            == connection::normalized_profile(p),
{
    text::trim_idempotent(p.name);
    text::trim_idempotent(p.host);
    text::trim_idempotent(p.user);
    text::trim_idempotent(p.password);
    text::trim_idempotent(p.identity_file);
    text::trim_idempotent(p.remote_command);
    text::trim_idempotent(p.note);
}

/// Whether folders have trimmed names, are not nameless and stand in order.
pub open spec fn folders_tidy(folders: Seq<FolderView>) -> bool {
    &&& forall|i: int|
        0 <= i < folders.len() ==> (#[trigger] folders[i]).name.len() > 0 && text::trimmed(
            folders[i].name,
        ) == folders[i].name
    &&& in_order(connection::folder_keys(folders))
}

/// Whether connections are normalized, usable and stand in order.
pub open spec fn profiles_tidy(folders: Seq<FolderView>, connections: Seq<ProfileView>) -> bool {
    &&& forall|i: int|
        0 <= i < connections.len() ==> connection::normalized_profile(#[trigger] connections[i])
            == connections[i] && (connections[i].name.len() > 0 || connections[i].host.len() > 0)
    &&& in_order(connection::profile_keys(folders, connections))
}

/// Whether a store is tidy: texts trimmed, nothing empty, no port 0, folders and
/// connections in order and no folder unused.
pub open spec fn is_tidy(s: StoreView) -> bool {
    &&& folders_tidy(s.folders)
    &&& profiles_tidy(s.folders, s.connections)
    &&& forall|i: int|
        0 <= i < s.folders.len() ==> connection::holds_some(s.connections, #[trigger] s.folders[i])
}

proof fn tidy_folders_are_tidy(folders: Seq<FolderView>)
    ensures
        folders_tidy(connection::tidy_folders(folders)),
{
    let trimmed = Seq::new(folders.len(), |i: int| connection::trimmed_folder(folders[i]));
    let named = trimmed.filter(connection::is_named());
    let keys = connection::folder_keys(named);
    let sorted = connection::tidy_folders(folders);
    seqs::filter_members(trimmed, connection::is_named());
    seqs::arranged_members(named, keys);
    assert forall|i: int| 0 <= i < sorted.len() implies (#[trigger] sorted[i]).name.len() > 0
        && text::trimmed(sorted[i].name) == sorted[i].name by {
        assert(sorted.contains(sorted[i]));
        assert(named.contains(sorted[i]));
        assert(trimmed.contains(sorted[i]));
        let k = trimmed.index_of(sorted[i]);
        text::trim_idempotent(folders[k].name);
    }
    arranged_in_order(keys);
    order::stable_order_sorts(keys);
    assert(connection::folder_keys(sorted) =~= arranged_keys(keys));
}

proof fn sorted_profiles_are_tidy(folders: Seq<FolderView>, connections: Seq<ProfileView>)
    ensures
        profiles_tidy(
            folders,
            connection::sorted_profiles(folders, connection::tidy_profiles(connections)),
        ),
{
    let normal = Seq::new(
        connections.len(),
        |i: int| connection::normalized_profile(connections[i]),
    );
    let usable = normal.filter(connection::is_usable());
    let keys = connection::profile_keys(folders, usable);
    let sorted = connection::sorted_profiles(folders, usable);
    seqs::filter_members(normal, connection::is_usable());
    seqs::arranged_members(usable, keys);
    assert forall|i: int| 0 <= i < sorted.len() implies connection::normalized_profile(
        #[trigger] sorted[i],
    ) == sorted[i] && (sorted[i].name.len() > 0 || sorted[i].host.len() > 0) by {
        assert(sorted.contains(sorted[i]));
        assert(usable.contains(sorted[i]));
        assert(normal.contains(sorted[i]));
        let k = normal.index_of(sorted[i]);
        normalize_profile_idempotent(connections[k]);
        assert(connection::is_usable()(sorted[i]));
    }
    arranged_in_order(keys);
    order::stable_order_sorts(keys);
    assert(connection::profile_keys(folders, sorted) =~= arranged_keys(keys));
}

/// Dropping unused folders from folders that are tidy keeps a store tidy.
proof fn cleanup_is_tidy(s: StoreView)
    requires
        folders_tidy(s.folders),
        profiles_tidy(s.folders, s.connections),
    ensures
        is_tidy(connection::without_unused_folders(s)),
{
    let p = connection::is_used(s.connections);
    let kept = s.folders.filter(p);
    seqs::filter_members(s.folders, p);
    assert forall|i: int| 0 <= i < kept.len() implies (#[trigger] kept[i]).name.len() > 0
        && text::trimmed(kept[i].name) == kept[i].name && connection::holds_some(
        s.connections,
        kept[i],
    ) by {
        assert(kept.contains(kept[i]));
        assert(s.folders.contains(kept[i]));
        let k = s.folders.index_of(kept[i]);
        assert(s.folders[k] == kept[i]);
        assert(p(kept[i]));
    }
    let keys = connection::folder_keys(kept);
    let all_keys = connection::folder_keys(s.folders);
    assert forall|i: int, j: int| 0 <= i < j < keys.len() implies !order::key_lt(
        #[trigger] keys[j],
        #[trigger] keys[i],
    ) by {
        let places = seqs::filter_keeps_order(s.folders, p, i, j);
        assert(all_keys[places.0] == keys[i] && all_keys[places.1] == keys[j]);
    }
    assert forall|i: int| 0 <= i < s.connections.len() implies connection::profile_key(
        kept,
        #[trigger] s.connections[i],
    ) == connection::profile_key(s.folders, s.connections[i]) by {
        match s.connections[i].folder_id {
            Some(id) => {
                let q = connection::folder_has_id(id);
                assert forall|k: int| 0 <= k < s.folders.len() && q(#[trigger] s.folders[k]) implies p(
                    s.folders[k],
                ) by {
                    assert(s.connections[i].folder_id == Some(s.folders[k].id));
                }
                seqs::last_where_filtered(s.folders, p, q);
            },
            None => {},
        }
    }
    assert(connection::profile_keys(kept, s.connections) =~= connection::profile_keys(
        s.folders,
        s.connections,
    ));
}

/// A normalized store is tidy.
pub proof fn normalized_is_tidy(s: StoreView)
    ensures
        is_tidy(connection::normalized_store(s)),
{
    let folders = connection::tidy_folders(s.folders);
    let connections = connection::sorted_profiles(
        folders,
        connection::tidy_profiles(s.connections),
    );
    tidy_folders_are_tidy(s.folders);
    sorted_profiles_are_tidy(folders, s.connections);
    cleanup_is_tidy(StoreView { folders, connections });
}

/// Normalizing a tidy store changes nothing.
pub proof fn tidy_is_unchanged(s: StoreView)
    requires
        is_tidy(s),
    ensures
        connection::normalized_store(s) == s,
{
    let trimmed = Seq::new(s.folders.len(), |i: int| connection::trimmed_folder(s.folders[i]));
    assert(trimmed =~= s.folders);
    seqs::filter_all(s.folders, connection::is_named());
    arranged_unchanged(s.folders, connection::folder_keys(s.folders));
    let normal = Seq::new(
        s.connections.len(),
        |i: int| connection::normalized_profile(s.connections[i]),
    );
    assert(normal =~= s.connections);
    seqs::filter_all(s.connections, connection::is_usable());
    arranged_unchanged(s.connections, connection::profile_keys(s.folders, s.connections));
    seqs::filter_all(s.folders, connection::is_used(s.connections));
}

/// Normalizing a normalized store changes nothing. So what is read back after a store
/// was written, which normalizes it both times, is the store that was written.
pub proof fn normalize_idempotent(s: StoreView)
    ensures
        connection::normalized_store(connection::normalized_store(s))
            == connection::normalized_store(s),
{
    normalized_is_tidy(s);
    tidy_is_unchanged(connection::normalized_store(s));
}

/// Whether no two connections have the same identifier.
pub open spec fn ids_distinct(connections: Seq<ProfileView>) -> bool {
    forall|i: int, j: int|
        0 <= i < j < connections.len() ==> (#[trigger] connections[i]).id != (
        #[trigger] connections[j]).id
}

/// Where identifiers are distinct, a connection is found by its own.
pub proof fn contained_is_found(connections: Seq<ProfileView>, p: ProfileView)
    requires
        ids_distinct(connections),
        connections.contains(p),
    ensures
        seqs::first_where(connections, connection::profile_has_id(p.id)) == Some(p),
{
    let i = connections.index_of(p);
    assert forall|j: int| 0 <= j < i implies !connection::profile_has_id(p.id)(
        #[trigger] connections[j],
    ) by {
        assert(connections[j].id != connections[i].id);
    }
    seqs::first_index_at(connections, connection::profile_has_id(p.id), i);
}

/// What is found by an identifier is there and has it; where nothing is found,
/// nothing has it.
proof fn found_is_contained(connections: Seq<ProfileView>, id: Uuid)
    ensures
        match seqs::first_where(connections, connection::profile_has_id(id)) {
            Some(p) => connections.contains(p) && p.id == id,
            None => forall|p: ProfileView| #[trigger] connections.contains(p) ==> p.id != id,
        },
{
    let q = connection::profile_has_id(id);
    seqs::first_index_found(connections, q);
    match seqs::first_index(connections, q) {
        Some(i) => {
            assert(q(connections[i]));
        },
        None => {
            assert forall|p: ProfileView| #[trigger] connections.contains(p) implies p.id != id by {
                let k = connections.index_of(p);
                assert(!q(connections[k]));
            }
        },
    }
}

/// The connections that a store keeps of `connections` when it is normalized.
pub open spec fn kept_profiles(s: StoreView) -> Seq<ProfileView> {
    connection::normalized_store(s).connections
}

/// Normalizing keeps exactly the normalized forms of the connections that are usable,
/// and keeps identifiers distinct.
proof fn kept_members(s: StoreView)
    ensures
        forall|p: ProfileView| #[trigger]
            kept_profiles(s).contains(p) <==> (exists|k: int|
                0 <= k < s.connections.len() && connection::normalized_profile(
                    #[trigger] s.connections[k],
                ) == p) && connection::is_usable()(p),
        ids_distinct(s.connections) ==> ids_distinct(kept_profiles(s)),
{
    let folders = connection::tidy_folders(s.folders);
    let normal = Seq::new(
        s.connections.len(),
        |i: int| connection::normalized_profile(s.connections[i]),
    );
    let usable = connection::tidy_profiles(s.connections);
    let keys = connection::profile_keys(folders, usable);
    let kept = kept_profiles(s);
    seqs::filter_members(normal, connection::is_usable());
    seqs::arranged_members(usable, keys);
    assert forall|p: ProfileView| #[trigger] kept.contains(p) implies (exists|k: int|
        0 <= k < s.connections.len() && connection::normalized_profile(#[trigger] s.connections[k])
            == p) && connection::is_usable()(p) by {
        assert(usable.contains(p));
        assert(normal.contains(p));
        let k = normal.index_of(p);
        assert(connection::normalized_profile(s.connections[k]) == p);
    }
    assert forall|p: ProfileView|
        (exists|k: int|
            0 <= k < s.connections.len() && connection::normalized_profile(
                #[trigger] s.connections[k],
            ) == p) && connection::is_usable()(p) implies #[trigger] kept.contains(p) by {
        let k = choose|k: int|
            0 <= k < s.connections.len() && connection::normalized_profile(
                #[trigger] s.connections[k],
            ) == p;
        assert(normal[k] == p);
        assert(normal.contains(p));
        assert(usable.contains(p));
    }
    if ids_distinct(s.connections) {
        assert forall|i: int, j: int| 0 <= i < j < usable.len() implies (#[trigger] usable[i]).id
            != (#[trigger] usable[j]).id by {
            let places = seqs::filter_keeps_order(normal, connection::is_usable(), i, j);
            assert(s.connections[places.0].id != s.connections[places.1].id);
        }
        order::stable_order_sorts(keys);
        let order = order::stable_order(keys);
        order::stable_order_is_permutation(keys, order);
        assert forall|i: int, j: int| 0 <= i < j < kept.len() implies (#[trigger] kept[i]).id != (
        #[trigger] kept[j]).id by {
            assert(order[i] != order[j]);
            if order[i] < order[j] {
                assert(usable[order[i]].id != usable[order[j]].id);
            } else {
                assert(usable[order[j]].id != usable[order[i]].id);
            }
        }
    }
}

proof fn replaced_facts(connections: Seq<ProfileView>, p: ProfileView)
    ensures
        connection::replaced(connections, p).contains(p),
        ids_distinct(connections) ==> ids_distinct(connection::replaced(connections, p)),
        forall|q: ProfileView|
            q.id != p.id ==> (#[trigger] connection::replaced(connections, p).contains(q)
                <==> connections.contains(q)),
{
    let r = connection::replaced(connections, p);
    let matching = connection::profile_has_id(p.id);
    seqs::first_index_found(connections, matching);
    match seqs::first_index(connections, matching) {
        Some(i) => {
            assert(matching(connections[i]));
            assert(r[i] == p);
            assert forall|q: ProfileView| q.id != p.id implies (#[trigger] r.contains(q)
                <==> connections.contains(q)) by {
                if r.contains(q) {
                    let k = r.index_of(q);
                    assert(connections[k] == q);
                }
                if connections.contains(q) {
                    let k = connections.index_of(q);
                    assert(r[k] == q);
                }
            }
        },
        None => {
            assert(r[connections.len() as int] == p);
            assert forall|q: ProfileView| q.id != p.id implies (#[trigger] r.contains(q)
                <==> connections.contains(q)) by {
                if r.contains(q) {
                    let k = r.index_of(q);
                    assert(connections[k] == q);
                }
                if connections.contains(q) {
                    let k = connections.index_of(q);
                    assert(r[k] == q);
                }
            }
            if ids_distinct(connections) {
                assert forall|i: int, j: int| 0 <= i < j < r.len() implies (#[trigger] r[i]).id
                    != (#[trigger] r[j]).id by {
                    assert(!matching(connections[i]));
                }
            }
        },
    }
}

/// What was put into a store is found there by its identifier, normalized. A profile
/// with neither name nor host is not kept.
pub proof fn upsert_then_find(s: StoreView, p: ProfileView)
    requires
        ids_distinct(s.connections),
    ensures
        connection::connection_of(connection::upserted(s, p), p.id) == (
        if connection::is_usable()(connection::normalized_profile(p)) {
            Some(connection::normalized_profile(p))
        } else {
            None
        }),
{
    let normal = connection::normalized_profile(p);
    let t = StoreView { connections: connection::replaced(s.connections, normal), ..s };
    replaced_facts(s.connections, normal);
    kept_members(t);
    normalize_profile_idempotent(p);
    let k = t.connections.index_of(normal);
    assert(t.connections[k] == normal);
    assert(connection::normalized_profile(t.connections[k]) == normal);
    let kept = kept_profiles(t);
    if connection::is_usable()(normal) {
        assert(kept.contains(normal));
        contained_is_found(kept, normal);
    } else {
        found_is_contained(kept, p.id);
        match seqs::first_where(kept, connection::profile_has_id(p.id)) {
            Some(q) => {
                let j = choose|j: int|
                    0 <= j < t.connections.len() && connection::normalized_profile(
                        #[trigger] t.connections[j],
                    ) == q;
                assert(t.connections[j].id == t.connections[k].id);
                assert(j == k) by {
                    if j < k {
                        assert(t.connections[j].id != t.connections[k].id);
                    } else if k < j {
                        assert(t.connections[k].id != t.connections[j].id);
                    }
                }
            },
            None => {},
        }
    }
}

/// Putting a profile into a store leaves the others as they were, up to
/// normalization.
pub proof fn upsert_keeps_others(s: StoreView, p: ProfileView, id: Uuid)
    requires
        ids_distinct(s.connections),
        id != p.id,
    ensures
        connection::connection_of(connection::upserted(s, p), id) == (
        match connection::connection_of(s, id) {
            Some(q) => if connection::is_usable()(connection::normalized_profile(q)) {
                Some(connection::normalized_profile(q))
            } else {
                None
            },
            None => None,
        }),
{
    let normal = connection::normalized_profile(p);
    let t = StoreView { connections: connection::replaced(s.connections, normal), ..s };
    replaced_facts(s.connections, normal);
    kept_members(t);
    let kept = kept_profiles(t);
    found_is_contained(s.connections, id);
    found_is_contained(kept, id);
    match connection::connection_of(s, id) {
        Some(q) => {
            assert(t.connections.contains(q));
            let k = t.connections.index_of(q);
            assert(t.connections[k] == q);
            let r = connection::normalized_profile(q);
            if connection::is_usable()(r) {
                assert(kept.contains(r));
                contained_is_found(kept, r);
            } else {
                match seqs::first_where(kept, connection::profile_has_id(id)) {
                    Some(x) => {
                        let j = choose|j: int|
                            0 <= j < t.connections.len() && connection::normalized_profile(
                                #[trigger] t.connections[j],
                            ) == x;
                        assert(j == k) by {
                            if j < k {
                                assert(t.connections[j].id != t.connections[k].id);
                            } else if k < j {
                                assert(t.connections[k].id != t.connections[j].id);
                            }
                        }
                    },
                    None => {},
                }
            }
        },
        None => {
            match seqs::first_where(kept, connection::profile_has_id(id)) {
                Some(x) => {
                    let j = choose|j: int|
                        0 <= j < t.connections.len() && connection::normalized_profile(
                            #[trigger] t.connections[j],
                        ) == x;
                    let q = t.connections[j];
                    assert(t.connections.contains(q));
                    assert(s.connections.contains(q));
                },
                None => {},
            }
        },
    }
}

/// Putting a profile into a store keeps identifiers distinct.
pub proof fn upsert_keeps_ids_distinct(s: StoreView, p: ProfileView)
    requires
        ids_distinct(s.connections),
    ensures
        ids_distinct(connection::upserted(s, p).connections),
{
    let normal = connection::normalized_profile(p);
    let t = StoreView { connections: connection::replaced(s.connections, normal), ..s };
    replaced_facts(s.connections, normal);
    kept_members(t);
}

/// Putting a profile into a store leaves it tidy, whatever it was before.
pub proof fn upsert_is_tidy(s: StoreView, p: ProfileView)
    ensures
        is_tidy(connection::upserted(s, p)),
{
    normalized_is_tidy(
        StoreView {
            connections: connection::replaced(s.connections, connection::normalized_profile(p)),
            ..s
        },
    );
}

/// The condition that a connection has another identifier than `id`.
pub open spec fn has_other_id(id: Uuid) -> spec_fn(ProfileView) -> bool {
    |p: ProfileView| p.id != id
}

/// What becomes of the connections of a tidy store when a profile is put into it: the
/// profile takes its place among them, unless it has neither name nor host, and all is
/// sorted.
proof fn upsert_of_tidy(s: StoreView, p: ProfileView)
    requires
        is_tidy(s),
    ensures
        ({
            let put = connection::replaced(s.connections, connection::normalized_profile(p));
            let usable = put.filter(connection::is_usable());
            let t = connection::upserted(s, p);
            &&& t.connections == connection::sorted_profiles(s.folders, usable)
            &&& t.folders == s.folders.filter(connection::is_used(t.connections))
        }),
{
    let normal = connection::normalized_profile(p);
    let put = connection::replaced(s.connections, normal);
    let trimmed = Seq::new(s.folders.len(), |i: int| connection::trimmed_folder(s.folders[i]));
    assert(trimmed =~= s.folders);
    seqs::filter_all(s.folders, connection::is_named());
    arranged_unchanged(s.folders, connection::folder_keys(s.folders));
    normalize_profile_idempotent(p);
    seqs::first_index_found(s.connections, connection::profile_has_id(normal.id));
    let normals = Seq::new(put.len(), |i: int| connection::normalized_profile(put[i]));
    assert forall|i: int| 0 <= i < put.len() implies normals[i] == #[trigger] put[i] by {
        if i < s.connections.len() {
            assert(connection::normalized_profile(s.connections[i]) == s.connections[i]);
        }
    }
    assert(normals =~= put);
}

/// Putting a profile into a tidy store leaves the other connections in their order.
pub proof fn upsert_keeps_order(s: StoreView, p: ProfileView)
    requires
        is_tidy(s),
    ensures
        connection::upserted(s, p).connections.filter(has_other_id(p.id)) == s.connections.filter(
            has_other_id(p.id),
        ),
{
    let normal = connection::normalized_profile(p);
    let put = connection::replaced(s.connections, normal);
    let usable = put.filter(connection::is_usable());
    let keys = connection::profile_keys(s.folders, usable);
    let all_keys = connection::profile_keys(s.folders, s.connections);
    let q = has_other_id(p.id);
    let matching = connection::profile_has_id(p.id);
    upsert_of_tidy(s, p);
    seqs::first_index_found(s.connections, matching);
    match seqs::first_index(s.connections, matching) {
        Some(i) => {
            assert(matching(s.connections[i]));
            seqs::filter_update(s.connections, q, i, normal);
        },
        None => {
            seqs::filter_push(s.connections, q, normal);
        },
    }
    assert(put.filter(q) == s.connections.filter(q));
    seqs::filters_commute(put, connection::is_usable(), q);
    seqs::filter_members(s.connections, q);
    let others = s.connections.filter(q);
    assert forall|i: int| 0 <= i < others.len() implies connection::is_usable()(
        #[trigger] others[i],
    ) by {
        assert(others.contains(others[i]));
        let k = s.connections.index_of(others[i]);
        assert(s.connections[k] == others[i]);
    }
    seqs::filter_all(others, connection::is_usable());
    assert(usable.filter(q) == others);
    assert forall|i: int, j: int|
        0 <= i < j < usable.len() && q(usable[i]) && q(usable[j]) implies !order::key_lt(
        #[trigger] keys[j],
        #[trigger] keys[i],
    ) by {
        let places = seqs::filter_keeps_order(put, connection::is_usable(), i, j);
        assert(put[places.0] == s.connections[places.0] && put[places.1]
            == s.connections[places.1]);
        assert(keys[i] == all_keys[places.0] && keys[j] == all_keys[places.1]);
    }
    seqs::sorting_keeps_order(usable, keys, q);
}

/// Putting a profile into a tidy store makes it longer by one where its identifier is
/// new, and shorter by one where the profile has neither name nor host.
pub proof fn upsert_length(s: StoreView, p: ProfileView)
    requires
        is_tidy(s),
    ensures
        connection::upserted(s, p).connections.len() == s.connections.len() + (
        if connection::connection_of(s, p.id) is None {
            1int
        } else {
            0
        }) - (if connection::is_usable()(connection::normalized_profile(p)) {
            0int
        } else {
            1
        }),
{
    let normal = connection::normalized_profile(p);
    let put = connection::replaced(s.connections, normal);
    let usable = put.filter(connection::is_usable());
    let matching = connection::profile_has_id(p.id);
    upsert_of_tidy(s, p);
    seqs::arranged_members(usable, connection::profile_keys(s.folders, usable));
    seqs::first_index_found(s.connections, matching);
    let place = match seqs::first_index(s.connections, matching) {
        Some(i) => i,
        None => s.connections.len() as int,
    };
    assert forall|j: int| 0 <= j < put.len() && j != place implies connection::is_usable()(
        #[trigger] put[j],
    ) by {
        assert(put[j] == s.connections[j]);
    }
    assert(put[place] == normal);
    if connection::is_usable()(normal) {
        seqs::filter_all(put, connection::is_usable());
    } else {
        seqs::filter_all_but(put, connection::is_usable(), place);
    }
}

/// Folders that are in use stay in use where there are more connections.
proof fn used_folders_stay(s: StoreView, more: Seq<ProfileView>)
    requires
        is_tidy(s),
        forall|p: ProfileView| s.connections.contains(p) ==> #[trigger] more.contains(p),
    ensures
        s.folders.filter(connection::is_used(more)) == s.folders,
{
    assert forall|i: int| 0 <= i < s.folders.len() implies connection::is_used(more)(
        #[trigger] s.folders[i],
    ) by {
        assert(connection::holds_some(s.connections, s.folders[i]));
        let k = choose|k: int|
            0 <= k < s.connections.len() && #[trigger] s.connections[k].folder_id == Some(
                s.folders[i].id,
            );
        assert(s.connections.contains(s.connections[k]));
        assert(more.contains(s.connections[k]));
        let m = more.index_of(s.connections[k]);
        assert(more[m].folder_id == Some(s.folders[i].id));
    }
    seqs::filter_all(s.folders, connection::is_used(more));
}

/// Where one connection is added to others and all are sorted, it stands at one place,
/// and nothing else has its identifier.
proof fn place_of_new(
    folders: Seq<FolderView>,
    connections: Seq<ProfileView>,
    p: ProfileView,
) -> (place: int)
    requires
        forall|i: int| 0 <= i < connections.len() ==> (#[trigger] connections[i]).id != p.id,
    ensures
        ({
            let sorted = connection::sorted_profiles(folders, connections.push(p));
            &&& seqs::first_index(sorted, connection::profile_has_id(p.id)) == Some(place)
            &&& sorted.remove(place) == sorted.filter(has_other_id(p.id))
        }),
{
    let put = connections.push(p);
    let keys = connection::profile_keys(folders, put);
    let sorted = connection::sorted_profiles(folders, put);
    let order = order::stable_order(keys);
    let q = has_other_id(p.id);
    order::stable_order_sorts(keys);
    order::stable_order_is_permutation(keys, order);
    let n = connections.len() as int;
    assert(order.contains(n));
    let place = order.index_of(n);
    assert(sorted[place] == p);
    assert forall|j: int| 0 <= j < sorted.len() && j != place implies q(#[trigger] sorted[j]) by {
        assert(order[j] != order[place]);
        assert(sorted[j] == connections[order[j]]);
    }
    seqs::filter_all_but(sorted, q, place);
    assert forall|j: int| 0 <= j < place implies !connection::profile_has_id(p.id)(
        #[trigger] sorted[j],
    ) by {
        assert(q(sorted[j]));
    }
    seqs::first_index_at(sorted, connection::profile_has_id(p.id), place);
    place
}

/// Everything in a tidy store is usable.
proof fn tidy_is_usable(s: StoreView)
    requires
        is_tidy(s),
    ensures
        forall|i: int| 0 <= i < s.connections.len() ==> connection::is_usable()(
            #[trigger] s.connections[i],
        ),
{
}

/// A new connection that is put into a tidy store stands at one place, and all else is
/// as it was.
proof fn upsert_of_new(s: StoreView, p: ProfileView) -> (place: int)
    requires
        is_tidy(s),
        connection::connection_of(s, p.id) is None,
        connection::is_usable()(connection::normalized_profile(p)),
    ensures
        ({
            let t = connection::upserted(s, p);
            &&& seqs::first_index(t.connections, connection::profile_has_id(p.id)) == Some(place)
            &&& t.connections.remove(place) == s.connections
            &&& t.folders == s.folders
        }),
{
    let normal = connection::normalized_profile(p);
    let put = s.connections.push(normal);
    let q = has_other_id(p.id);
    let t = connection::upserted(s, p);
    seqs::first_index_found(s.connections, connection::profile_has_id(p.id));
    assert forall|i: int| 0 <= i < s.connections.len() implies (#[trigger] s.connections[i]).id
        != p.id by {
        assert(!connection::profile_has_id(p.id)(s.connections[i]));
    }
    assert(put.filter(connection::is_usable()) == put) by {
        tidy_is_usable(s);
        seqs::filter_all(put, connection::is_usable());
    }
    assert(t.connections == connection::sorted_profiles(s.folders, put) && t.folders
        == s.folders.filter(connection::is_used(t.connections))) by {
        upsert_of_tidy(s, p);
    }
    let place = place_of_new(s.folders, s.connections, normal);
    assert(t.connections.remove(place) == s.connections) by {
        upsert_keeps_order(s, p);
        seqs::filter_all(s.connections, q);
    }
    assert(t.folders == s.folders) by {
        seqs::arranged_members(put, connection::profile_keys(s.folders, put));
        assert forall|c: ProfileView| s.connections.contains(c) implies #[trigger]
            t.connections.contains(c) by {
            let k = s.connections.index_of(c);
            assert(put[k] == c);
            assert(put.contains(c));
        }
        used_folders_stay(s, t.connections);
    }
    place
}

/// A new connection with neither name nor host is not put into a tidy store.
proof fn upsert_of_nothing(s: StoreView, p: ProfileView)
    requires
        is_tidy(s),
        connection::connection_of(s, p.id) is None,
        !connection::is_usable()(connection::normalized_profile(p)),
    ensures
        connection::upserted(s, p) == s,
{
    upsert_of_tidy(s, p);
    tidy_is_usable(s);
    seqs::filter_push(s.connections, connection::is_usable(), connection::normalized_profile(p));
    seqs::filter_all(s.connections, connection::is_usable());
    arranged_unchanged(s.connections, connection::profile_keys(s.folders, s.connections));
    used_folders_stay(s, s.connections);
}

/// Putting a new connection into a tidy store and taking it out again restores the
/// store.
pub proof fn upsert_then_remove_restores(s: StoreView, p: ProfileView)
    requires
        is_tidy(s),
        connection::connection_of(s, p.id) is None,
    ensures
        connection::removed(connection::upserted(s, p), p.id) == s,
{
    if connection::is_usable()(connection::normalized_profile(p)) {
        let place = upsert_of_new(s, p);
        used_folders_stay(s, s.connections);
    } else {
        upsert_of_nothing(s, p);
    }
}

/// Among connections in order, what stands before a connection without a folder lies in
/// no folder whose name has a lower case form.
proof fn blank_keys_first(folders: Seq<FolderView>, connections: Seq<ProfileView>, i: int, j: int)
    requires
        in_order(connection::profile_keys(folders, connections)),
        0 <= i < j < connections.len(),
        connection::sorting_folder_name(folders, connections[j].folder_id).len() == 0,
    ensures
        text::lowered(
            connection::sorting_folder_name(folders, connections[i].folder_id),
        ).len() == 0,
{
    let keys = connection::profile_keys(folders, connections);
    assert(!order::key_lt(keys[j], keys[i]));
    assert(keys[j][0].len() == 0);
    assert(keys[i].len() == 3 && keys[j].len() == 3);
}

/// Connections without a folder come first when connections are sorted: before one of
/// them stand only connections whose folder is missing or has a name that is empty in
/// lower case.
pub proof fn folderless_come_first(
    folders: Seq<FolderView>,
    connections: Seq<ProfileView>,
    i: int,
    j: int,
)
    requires
        0 <= i < j < connections.len(),
        connection::sorting_folder_name(
            folders,
            connection::sorted_profiles(folders, connections)[j].folder_id,
        ).len() == 0,
    ensures
        text::lowered(
            connection::sorting_folder_name(
                folders,
                connection::sorted_profiles(folders, connections)[i].folder_id,
            ),
        ).len() == 0,
{
    let keys = connection::profile_keys(folders, connections);
    let sorted = connection::sorted_profiles(folders, connections);
    arranged_in_order(keys);
    order::stable_order_sorts(keys);
    assert(connection::profile_keys(folders, sorted) =~= arranged_keys(keys));
    blank_keys_first(folders, sorted, i, j);
}

/// Connections without a folder come first in a tidy store.
pub proof fn folderless_are_first(s: StoreView, i: int, j: int)
    requires
        is_tidy(s),
        0 <= i < j < s.connections.len(),
        connection::sorting_folder_name(s.folders, s.connections[j].folder_id).len() == 0,
    ensures
        text::lowered(
            connection::sorting_folder_name(s.folders, s.connections[i].folder_id),
        ).len() == 0,
{
    blank_keys_first(s.folders, s.connections, i, j);
}

/// What was taken out of a store is not found any more.
pub proof fn remove_then_find(s: StoreView, id: Uuid)
    requires
        ids_distinct(s.connections),
    ensures
        connection::connection_of(connection::removed(s, id), id) is None,
{
    let matching = connection::profile_has_id(id);
    seqs::first_index_found(s.connections, matching);
    match seqs::first_index(s.connections, matching) {
        Some(i) => {
            let rest = s.connections.remove(i);
            assert forall|j: int| 0 <= j < rest.len() implies !matching(#[trigger] rest[j]) by {
                if j < i {
                    assert(s.connections[j].id != s.connections[i].id);
                } else {
                    assert(rest[j] == s.connections[j + 1]);
                    assert(s.connections[i].id != s.connections[j + 1].id);
                }
            }
            seqs::first_index_none(rest, matching);
        },
        None => {},
    }
}

/// Taking a connection out of a store leaves the others as they were.
pub proof fn remove_keeps_others(s: StoreView, id: Uuid, other: Uuid)
    requires
        other != id,
    ensures
        connection::connection_of(connection::removed(s, id), other) == connection::connection_of(
            s,
            other,
        ),
{
    let matching = connection::profile_has_id(id);
    let matching_other = connection::profile_has_id(other);
    seqs::first_index_found(s.connections, matching);
    seqs::first_index_found(s.connections, matching_other);
    match seqs::first_index(s.connections, matching) {
        Some(i) => {
            let rest = s.connections.remove(i);
            assert(matching(s.connections[i]));
            match seqs::first_index(s.connections, matching_other) {
                Some(k) => {
                    let place = if k < i { k } else { k - 1 };
                    assert(k != i);
                    assert(rest[place] == s.connections[k]);
                    assert forall|j: int| 0 <= j < place implies !matching_other(#[trigger] rest[j]) by {
                        if j < i {
                            assert(rest[j] == s.connections[j]);
                        } else {
                            assert(rest[j] == s.connections[j + 1]);
                        }
                    }
                    seqs::first_index_at(rest, matching_other, place);
                },
                None => {
                    assert forall|j: int| 0 <= j < rest.len() implies !matching_other(#[trigger] rest[j]) by {
                        if j < i {
                            assert(rest[j] == s.connections[j]);
                        } else {
                            assert(rest[j] == s.connections[j + 1]);
                        }
                    }
                    seqs::first_index_none(rest, matching_other);
                },
            }
        },
        None => {},
    }
}

/// Taking a connection out keeps identifiers distinct.
pub proof fn remove_keeps_ids_distinct(s: StoreView, id: Uuid)
    requires
        ids_distinct(s.connections),
    ensures
        ids_distinct(connection::removed(s, id).connections),
{
    let matching = connection::profile_has_id(id);
    seqs::first_index_found(s.connections, matching);
    match seqs::first_index(s.connections, matching) {
        Some(i) => {
            let rest = s.connections.remove(i);
            assert forall|a: int, b: int| 0 <= a < b < rest.len() implies (#[trigger] rest[a]).id
                != (#[trigger] rest[b]).id by {
                let x = if a < i { a } else { a + 1 };
                let y = if b < i { b } else { b + 1 };
                assert(rest[a] == s.connections[x] && rest[b] == s.connections[y]);
            }
        },
        None => {},
    }
}

/// Taking a connection out of a tidy store leaves it tidy.
pub proof fn remove_is_tidy(s: StoreView, id: Uuid)
    requires
        is_tidy(s),
    ensures
        is_tidy(connection::removed(s, id)),
{
    let matching = connection::profile_has_id(id);
    seqs::first_index_found(s.connections, matching);
    match seqs::first_index(s.connections, matching) {
        Some(i) => {
            let rest = s.connections.remove(i);
            let keys = connection::profile_keys(s.folders, rest);
            let all_keys = connection::profile_keys(s.folders, s.connections);
            assert forall|j: int| 0 <= j < rest.len() implies connection::normalized_profile(
                #[trigger] rest[j],
            ) == rest[j] && (rest[j].name.len() > 0 || rest[j].host.len() > 0) by {
                let x = if j < i { j } else { j + 1 };
                assert(rest[j] == s.connections[x]);
            }
            assert forall|a: int, b: int| 0 <= a < b < keys.len() implies !order::key_lt(
                #[trigger] keys[b],
                #[trigger] keys[a],
            ) by {
                let x = if a < i { a } else { a + 1 };
                let y = if b < i { b } else { b + 1 };
                assert(keys[a] == all_keys[x] && keys[b] == all_keys[y]);
            }
            cleanup_is_tidy(StoreView { connections: rest, ..s });
        },
        None => {},
    }
}

/// Whether no two folders have the same identifier.
pub open spec fn folder_ids_distinct(folders: Seq<FolderView>) -> bool {
    forall|i: int, j: int|
        0 <= i < j < folders.len() ==> (#[trigger] folders[i]).id != (#[trigger] folders[j]).id
}

/// Asking for a folder and then again, by a name that is the same up to white space
/// around it and the case of ASCII letters, gives the same folder and changes nothing.
pub proof fn ensure_folder_idempotent(
    s: StoreView,
    name: Seq<char>,
    fresh: Uuid,
    later_name: Seq<char>,
    later: Uuid,
)
    requires
        text::same_ignoring_ascii_case(text::trimmed(later_name), text::trimmed(name)),
    ensures
        ({
            let (t, id) = connection::with_folder_named(s, name, fresh);
            connection::with_folder_named(t, later_name, later) == (t, id)
        }),
{
    let wanted = text::trimmed(name);
    let named = connection::folder_is_named(wanted);
    let later_wanted = text::trimmed(later_name);
    assert(connection::folder_is_named(later_wanted) =~= named) by {
        assert forall|f: FolderView| #[trigger] connection::folder_is_named(later_wanted)(f)
            == named(f) by {
            same_name_same_folders(f.name, later_wanted, wanted);
        }
    }
    let (t, id) = connection::with_folder_named(s, name, fresh);
    seqs::first_index_found(s.folders, named);
    if wanted.len() > 0 && seqs::first_index(s.folders, named) is None {
        let added = FolderView { id: fresh, name: wanted };
        let more = s.folders.push(added);
        let keys = connection::folder_keys(more);
        seqs::arranged_members(more, keys);
        assert(named(added));
        assert(more[s.folders.len() as int] == added);
        assert(more.contains(added));
        assert(t.folders.contains(added));
        let k = t.folders.index_of(added);
        assert(named(t.folders[k]));
        seqs::first_index_found(t.folders, named);
        match seqs::first_index(t.folders, named) {
            Some(i) => {
                assert(named(t.folders[i]));
                assert(t.folders.contains(t.folders[i]));
                assert(more.contains(t.folders[i]));
                let j = more.index_of(t.folders[i]);
                if j < s.folders.len() {
                    assert(!named(s.folders[j]));
                }
            },
            None => {
                assert(!named(t.folders[k]));
            },
        }
    }
}

/// Texts that differ at most in the case of ASCII letters name the same folders.
proof fn same_name_same_folders(folder: Seq<char>, a: Seq<char>, b: Seq<char>)
    requires
        text::same_ignoring_ascii_case(a, b),
    ensures
        text::same_ignoring_ascii_case(folder, a) == text::same_ignoring_ascii_case(folder, b),
{
    assert forall|i: int| 0 <= i < a.len() implies text::ascii_folded(#[trigger] b[i])
        == text::ascii_folded(a[i]) by {
        assert(text::ascii_folded(a[i]) == text::ascii_folded(b[i]));
    }
}

/// A text that differs from a trimmed one at most in the case of ASCII letters is
/// trimmed.
proof fn same_as_trimmed(a: Seq<char>, b: Seq<char>)
    requires
        text::same_ignoring_ascii_case(a, text::trimmed(b)),
    ensures
        text::trimmed(a) == a,
{
    text::trimmed_ends(b);
    if a.len() > 0 {
        let t = text::trimmed(b);
        assert(text::ascii_folded(a[0]) == text::ascii_folded(t[0]));
        assert(text::ascii_folded(a[a.len() - 1]) == text::ascii_folded(t[a.len() - 1]));
    }
}

/// A folder that was asked for, with a profile put into it, is there under its
/// identifier and has the name that was asked for, up to the case of ASCII letters.
/// The identifier of a new folder has to be one that no other folder has.
pub proof fn folder_survives_upsert(s: StoreView, name: Seq<char>, fresh: Uuid, p: ProfileView)
    requires
        folder_ids_distinct(s.folders),
        forall|i: int| 0 <= i < s.folders.len() ==> (#[trigger] s.folders[i]).id != fresh,
        text::trimmed(name).len() > 0,
        p.folder_id == connection::with_folder_named(s, name, fresh).1,
        connection::is_usable()(connection::normalized_profile(p)),
    ensures
        match connection::folder_name_of(
            connection::upserted(connection::with_folder_named(s, name, fresh).0, p),
            p.folder_id,
        ) {
            Some(found) => text::same_ignoring_ascii_case(found, text::trimmed(name)),
            None => false,
        },
{
    let wanted = text::trimmed(name);
    let named = connection::folder_is_named(wanted);
    let (t, id) = connection::with_folder_named(s, name, fresh);
    // The folder that was asked for, and that it alone has its identifier.
    seqs::first_index_found(s.folders, named);
    let f = match seqs::first_where(s.folders, named) {
        Some(f) => f,
        None => FolderView { id: fresh, name: wanted },
    };
    assert(id == Some(f.id));
    assert(named(f));
    assert(t.folders.contains(f) && forall|g: FolderView| #[trigger]
        t.folders.contains(g) && g.id == f.id ==> g == f) by {
        match seqs::first_index(s.folders, named) {
            Some(i) => {
                assert(t.folders[i] == f);
                assert forall|g: FolderView| #[trigger] t.folders.contains(g) && g.id
                    == f.id implies g == f by {
                    let k = s.folders.index_of(g);
                    if k < i {
                        assert(s.folders[k].id != s.folders[i].id);
                    } else if i < k {
                        assert(s.folders[i].id != s.folders[k].id);
                    }
                }
            },
            None => {
                let more = s.folders.push(f);
                seqs::arranged_members(more, connection::folder_keys(more));
                assert(more[s.folders.len() as int] == f);
                assert(more.contains(f));
                assert forall|g: FolderView| #[trigger] t.folders.contains(g) && g.id
                    == f.id implies g == f by {
                    assert(more.contains(g));
                    let k = more.index_of(g);
                    if k < s.folders.len() {
                        assert(s.folders[k].id != fresh);
                    }
                }
            },
        }
    }
    same_as_trimmed(f.name, name);
    // It passes trimming, filtering and sorting.
    let trimmed = Seq::new(t.folders.len(), |i: int| connection::trimmed_folder(t.folders[i]));
    let kept = trimmed.filter(connection::is_named());
    let tidy = connection::tidy_folders(t.folders);
    let k = t.folders.index_of(f);
    assert(trimmed[k] == f);
    assert(trimmed.contains(f));
    seqs::filter_members(trimmed, connection::is_named());
    assert(kept.contains(f));
    seqs::arranged_members(kept, connection::folder_keys(kept));
    assert(tidy.contains(f));
    assert forall|g: FolderView| #[trigger] tidy.contains(g) && g.id == f.id implies g == f by {
        assert(kept.contains(g));
        assert(trimmed.contains(g));
        let j = trimmed.index_of(g);
        assert(t.folders.contains(t.folders[j]));
    }
    // It is used by the profile.
    let normal = connection::normalized_profile(p);
    let u = StoreView { connections: connection::replaced(t.connections, normal), ..t };
    let r = connection::upserted(t, p);
    replaced_facts(t.connections, normal);
    kept_members(u);
    normalize_profile_idempotent(p);
    let m = u.connections.index_of(normal);
    assert(connection::normalized_profile(u.connections[m]) == normal);
    assert(kept_profiles(u).contains(normal));
    let n = r.connections.index_of(normal);
    assert(r.connections[n].folder_id == Some(f.id));
    assert(connection::is_used(r.connections)(f));
    seqs::filter_members(tidy, connection::is_used(r.connections));
    assert(r.folders.contains(f));
    // So it is what is found by the identifier.
    let by_id = connection::folder_has_id(f.id);
    seqs::first_index_found(r.folders, by_id);
    match seqs::first_index(r.folders, by_id) {
        Some(i) => {
            assert(by_id(r.folders[i]));
            assert(r.folders.contains(r.folders[i]));
            assert(tidy.contains(r.folders[i]));
        },
        None => {
            let i = r.folders.index_of(f);
            assert(!by_id(r.folders[i]));
        },
    }
}

/// Whether connection `b` does not come before `a` where connections are sorted by folder,
/// then by name, then by host, each in lower case.
pub open spec fn not_before(folders: Seq<FolderView>, a: ProfileView, b: ProfileView) -> bool {
    let (x, y) = (
        text::lowered(connection::sorting_folder_name(folders, a.folder_id)),
        text::lowered(connection::sorting_folder_name(folders, b.folder_id)),
    );
    let (n, m) = (text::lowered(a.name), text::lowered(b.name));
    let (h, k) = (text::lowered(a.host), text::lowered(b.host));
    &&& !text::text_lt(y, x)
    &&& x == y ==> !text::text_lt(m, n)
    &&& x == y && n == m ==> !text::text_lt(k, h)
}

proof fn key_order_is_by_parts(folders: Seq<FolderView>, a: ProfileView, b: ProfileView)
    requires
        !order::key_lt(connection::profile_key(folders, b), connection::profile_key(folders, a)),
    ensures
        not_before(folders, a, b),
{
    let x = connection::profile_key(folders, a);
    let y = connection::profile_key(folders, b);
    assert(x.len() == 3 && y.len() == 3);
    let (x1, y1) = (x.drop_first(), y.drop_first());
    let (x2, y2) = (x1.drop_first(), y1.drop_first());
    assert(x1[0] == x[1] && y1[0] == y[1] && x2[0] == x[2] && y2[0] == y[2]);
    assert(order::key_lt(y, x) == (if y[0] == x[0] {
        order::key_lt(y1, x1)
    } else {
        text::text_lt(y[0], x[0])
    }));
    assert(order::key_lt(y1, x1) == (if y1[0] == x1[0] {
        order::key_lt(y2, x2)
    } else {
        text::text_lt(y1[0], x1[0])
    }));
    assert(order::key_lt(y2, x2) == (if y2[0] == x2[0] {
        order::key_lt(y2.drop_first(), x2.drop_first())
    } else {
        text::text_lt(y2[0], x2[0])
    }));
    text::text_lt_irreflexive(x[0]);
    text::text_lt_irreflexive(x[1]);
    text::text_lt_irreflexive(x[2]);
}

/// Sorted connections are all connections, sorted by folder, then by name, then by host,
/// without regard to case.
pub proof fn connections_are_sorted(
    store: &ConnectionStore,
    r: Vec<&ConnectionProfile>,
    i: int,
    j: int,
    p: ProfileView,
)
    requires
        call_ensures(ConnectionStore::sorted_connections, (store,), r),
    ensures
        r@.len() == store@.connections.len(),
        0 <= i < j < r@.len() ==> not_before(store@.folders, r@[i]@, r@[j]@),
        store@.connections.contains(p) <==> exists|k: int|
            0 <= k < r@.len() && (#[trigger] r@[k])@ == p,
{
    let s = store@;
    let keys = connection::profile_keys(s.folders, s.connections);
    let sorted = connection::sorted_profiles(s.folders, s.connections);
    arranged_in_order(keys);
    order::stable_order_sorts(keys);
    seqs::arranged_members(s.connections, keys);
    if 0 <= i < j < r@.len() {
        let k = arranged_keys(keys);
        assert(k[i] == connection::profile_key(s.folders, sorted[i]));
        assert(k[j] == connection::profile_key(s.folders, sorted[j]));
        assert(!order::key_lt(k[j], k[i]));
        key_order_is_by_parts(s.folders, sorted[i], sorted[j]);
    }
    if s.connections.contains(p) {
        assert(sorted.contains(p));
        let k = sorted.index_of(p);
        assert(r@[k]@ == p);
    }
    if exists|k: int| 0 <= k < r@.len() && (#[trigger] r@[k])@ == p {
        let k = choose|k: int| 0 <= k < r@.len() && (#[trigger] r@[k])@ == p;
        assert(sorted[k] == p);
        assert(sorted.contains(p));
    }
}

/// A connection is sorted under the name of its folder, and as if under an empty name where
/// it lies in none that is there.
pub proof fn sorted_under_the_folder_name(s: StoreView, id: Option<Uuid>)
    requires
        folder_ids_distinct(s.folders),
    ensures
        match connection::folder_name_of(s, id) {
            Some(name) => connection::sorting_folder_name(s.folders, id) == name,
            None => connection::sorting_folder_name(s.folders, id).len() == 0,
        },
{
    if let Some(wanted) = id {
        let p = connection::folder_has_id(wanted);
        seqs::first_index_found(s.folders, p);
        last_is_any(s.folders, p);
        match seqs::first_index(s.folders, p) {
            Some(i) => {
                assert(p(s.folders[i]));
                match seqs::last_where(s.folders, p) {
                    Some(f) => {
                        let k = choose|k: int|
                            0 <= k < s.folders.len() && #[trigger] s.folders[k] == f && p(f);
                        assert(p(s.folders[k]));
                        if i < k {
                            assert(s.folders[i].id != s.folders[k].id);
                        } else if k < i {
                            assert(s.folders[k].id != s.folders[i].id);
                        }
                    },
                    None => {
                        assert(!p(s.folders[i]));
                    },
                }
            },
            None => {
                if let Some(f) = seqs::last_where(s.folders, p) {
                    let k = choose|k: int|
                        0 <= k < s.folders.len() && #[trigger] s.folders[k] == f && p(f);
                    assert(!p(s.folders[k]));
                }
            },
        }
    }
}

proof fn last_is_any<T>(s: Seq<T>, p: spec_fn(T) -> bool)
    ensures
        match seqs::last_where(s, p) {
            Some(x) => exists|k: int| 0 <= k < s.len() && #[trigger] s[k] == x && p(x),
            None => forall|k: int| 0 <= k < s.len() ==> !p(#[trigger] s[k]),
        },
    decreases s.len(),
{
    if s.len() > 0 && !p(s.last()) {
        let rest = s.drop_last();
        last_is_any(rest, p);
        match seqs::last_where(rest, p) {
            Some(x) => {
                let k = choose|k: int| 0 <= k < rest.len() && #[trigger] rest[k] == x && p(x);
                assert(s[k] == x);
            },
            None => {
                assert forall|k: int| 0 <= k < s.len() implies !p(#[trigger] s[k]) by {
                    if k < rest.len() {
                        assert(rest[k] == s[k]);
                    }
                }
            },
        }
    } else if s.len() > 0 {
        assert(s[s.len() - 1] == s.last());
    }
}

/// Normalizing a store keeps of its connections the normalized forms of those with a name
/// or a host, and sorts them by folder, then by name, then by host.
pub proof fn normalizing_keeps_usable_connections(
    store: &mut ConnectionStore,
    p: ProfileView,
    i: int,
    j: int,
)
    requires
        call_ensures(ConnectionStore::normalize, (store,), ()),
    ensures
        final(store)@.connections.contains(p) <==> (p.name.len() > 0 || p.host.len() > 0)
            && exists|k: int|
            0 <= k < old(store)@.connections.len() && connection::normalized_profile(
                #[trigger] old(store)@.connections[k],
            ) == p,
        final(store)@.connections.len() <= old(store)@.connections.len(),
        (forall|k: int|
            0 <= k < old(store)@.connections.len() ==> {
                let c = connection::normalized_profile(#[trigger] old(store)@.connections[k]);
                c.name.len() > 0 || c.host.len() > 0
            }) ==> final(store)@.connections.len() == old(store)@.connections.len(),
        0 <= i < j < final(store)@.connections.len() ==> not_before(
            final(store)@.folders,
            final(store)@.connections[i],
            final(store)@.connections[j],
        ),
{
    let s = old(store)@;
    let t = final(store)@;
    kept_members(s);
    normalized_is_tidy(s);
    assert(connection::is_usable()(p) == (p.name.len() > 0 || p.host.len() > 0));
    assert(t.connections == kept_profiles(s));
    assert(kept_profiles(s).contains(p) == t.connections.contains(p));
    if 0 <= i < j < t.connections.len() {
        let keys = connection::profile_keys(t.folders, t.connections);
        assert(!order::key_lt(keys[j], keys[i]));
        key_order_is_by_parts(t.folders, t.connections[i], t.connections[j]);
    }
    let normal = Seq::new(
        s.connections.len(),
        |k: int| connection::normalized_profile(s.connections[k]),
    );
    let usable = normal.filter(connection::is_usable());
    seqs::arranged_members(
        usable,
        connection::profile_keys(connection::tidy_folders(s.folders), usable),
    );
    normal.lemma_filter_len(connection::is_usable());
    if forall|k: int|
        0 <= k < s.connections.len() ==> {
            let c = connection::normalized_profile(#[trigger] s.connections[k]);
            c.name.len() > 0 || c.host.len() > 0
        } {
        assert forall|k: int| 0 <= k < normal.len() implies connection::is_usable()(
            #[trigger] normal[k],
        ) by {
            assert(normal[k] == connection::normalized_profile(s.connections[k]));
        }
        seqs::filter_all(normal, connection::is_usable());
    }
}

/// Normalizing a store keeps a folder, with its name trimmed, if and only if it has a name
/// and a connection lies in it, and sorts the folders by name without regard to case.
pub proof fn normalizing_keeps_used_folders(
    store: &mut ConnectionStore,
    f: FolderView,
    i: int,
    j: int,
)
    requires
        call_ensures(ConnectionStore::normalize, (store,), ()),
    ensures
        final(store)@.folders.contains(f) <==> {
            &&& f.name.len() > 0
            &&& exists|k: int|
                0 <= k < old(store)@.folders.len() && (#[trigger] old(store)@.folders[k]).id == f.id
                    && text::trimmed(old(store)@.folders[k].name) == f.name
            &&& exists|k: int|
                0 <= k < final(store)@.connections.len() && (
                #[trigger] final(store)@.connections[k]).folder_id == Some(f.id)
        },
        0 <= i < j < final(store)@.folders.len() ==> !text::text_lt(
            text::lowered(final(store)@.folders[j].name),
            text::lowered(final(store)@.folders[i].name),
        ),
{
    let s = old(store)@;
    let t = final(store)@;
    let trimmed = Seq::new(s.folders.len(), |k: int| connection::trimmed_folder(s.folders[k]));
    let named = trimmed.filter(connection::is_named());
    let tidy = connection::tidy_folders(s.folders);
    seqs::filter_members(trimmed, connection::is_named());
    seqs::arranged_members(named, connection::folder_keys(named));
    seqs::filter_members(tidy, connection::is_used(t.connections));
    assert(connection::is_used(t.connections)(f) == connection::holds_some(t.connections, f));
    assert(connection::is_named()(f) == (f.name.len() > 0));
    assert(tidy.contains(f) <==> named.contains(f));
    assert(named.contains(f) <==> trimmed.contains(f) && f.name.len() > 0);
    if trimmed.contains(f) {
        let k = trimmed.index_of(f);
        assert(s.folders[k].id == f.id && text::trimmed(s.folders[k].name) == f.name);
    }
    if exists|k: int|
        0 <= k < s.folders.len() && (#[trigger] s.folders[k]).id == f.id && text::trimmed(
            s.folders[k].name,
        ) == f.name {
        let k = choose|k: int|
            0 <= k < s.folders.len() && (#[trigger] s.folders[k]).id == f.id && text::trimmed(
                s.folders[k].name,
            ) == f.name;
        assert(trimmed[k] =~= f);
        assert(trimmed.contains(f));
    }
    if connection::holds_some(t.connections, f) {
        let k = choose|k: int|
            0 <= k < t.connections.len() && #[trigger] t.connections[k].folder_id == Some(f.id);
        assert(t.connections[k].folder_id == Some(f.id));
    }
    if exists|k: int|
        0 <= k < t.connections.len() && (#[trigger] t.connections[k]).folder_id == Some(f.id) {
        let k = choose|k: int|
            0 <= k < t.connections.len() && (#[trigger] t.connections[k]).folder_id == Some(f.id);
        assert(t.connections[k].folder_id == Some(f.id));
    }
    normalized_is_tidy(s);
    if 0 <= i < j < t.folders.len() {
        let keys = connection::folder_keys(t.folders);
        assert(!order::key_lt(keys[j], keys[i]));
        let (x, y) = (keys[i], keys[j]);
        assert(x.len() == 1 && y.len() == 1);
        assert(x[0] == text::lowered(t.folders[i].name) && y[0] == text::lowered(t.folders[j].name));
        text::text_lt_irreflexive(x[0]);
    }
}

/// A profile that was put into a store is found there by its identifier, with every field
/// as it was given, but for the white space around texts and a missing port.
pub proof fn what_was_put_in_is_found(
    store: &mut ConnectionStore,
    profile: ConnectionProfile,
    r: Option<&ConnectionProfile>,
)
    requires
        ids_distinct(old(store)@.connections),
        text::trimmed(profile.name@).len() > 0 || text::trimmed(profile.host@).len() > 0,
        call_ensures(ConnectionStore::upsert, (store, profile), ()),
        call_ensures(ConnectionStore::connection, (&*final(store), profile.id), r),
    ensures
        r matches Some(p) && {
            &&& p.id == profile.id
            &&& p.name@ == text::trimmed(profile.name@)
            &&& p.host@ == text::trimmed(profile.host@)
            &&& p.user@ == text::trimmed(profile.user@)
            &&& p.password@ == text::trimmed(profile.password@)
            &&& p.identity_file@ == text::trimmed(profile.identity_file@)
            &&& p.remote_command@ == text::trimmed(profile.remote_command@)
            &&& p.note@ == text::trimmed(profile.note@)
            &&& p.folder_id == profile.folder_id
            &&& p.backend == profile.backend
            &&& p.accept_new_host == profile.accept_new_host
            &&& p.terminal@ == profile.terminal@
            &&& profile.port != 0 ==> p.port == profile.port
            &&& profile.port == 0 ==> p.port == 22
        },
{
    upsert_then_find(old(store)@, profile@);
}

} // verus!
