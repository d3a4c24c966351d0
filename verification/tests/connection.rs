use rshell::connection::{
    default_accept_new_host, default_ssh_port, ConnectionBackend, ConnectionFolder,
    ConnectionProfile, ConnectionRepository, ConnectionStore,
};
use rshell::draft::ConnectionDraft;
use rshell::sidebar::{row_connection, sidebar_sections};
use std::path::PathBuf;
use uuid::Uuid;

fn id(n: u128) -> Uuid {
    Uuid::from_u128(n)
}

fn profile(n: u128, name: &str, host: &str) -> ConnectionProfile {
    ConnectionProfile::with_id(id(n), name, host)
}

fn folder(n: u128, name: &str) -> ConnectionFolder {
    ConnectionFolder { id: id(n), name: name.into() }
}

fn names(store: &ConnectionStore) -> Vec<String> {
    store.connections.iter().map(|c| c.name.clone()).collect()
}

#[test]
fn new_profile_has_defaults() {
    let p = ConnectionProfile::new("Edge", "10.0.0.1");
    assert_eq!(p.name, "Edge");
    assert_eq!(p.host, "10.0.0.1");
    assert_eq!(p.port, 22);
    assert_eq!(p.folder_id, None);
    assert_eq!(p.backend, ConnectionBackend::SystemOpenSsh);
    assert!(p.accept_new_host);
    assert!(p.terminal.is_empty());
    assert_ne!(p.id, ConnectionProfile::new("Edge", "10.0.0.1").id);
    let d = ConnectionProfile::default();
    assert_eq!(d.name, "New connection");
    assert_eq!(d.host, "");
    assert_eq!(default_ssh_port(), 22);
    assert!(default_accept_new_host());
}

#[test]
fn new_folder_has_its_name() {
    let f = ConnectionFolder::new("Production");
    assert_eq!(f.name, "Production");
    assert_ne!(f.id, ConnectionFolder::new("Production").id);
}

#[test]
fn backend_labels() {
    assert_eq!(ConnectionBackend::default(), ConnectionBackend::SystemOpenSsh);
    assert_eq!(ConnectionBackend::SystemOpenSsh.label(), "System OpenSSH");
    assert_eq!(ConnectionBackend::WezTermSsh.label(), "WezTerm SSH");
}

#[test]
fn destination_with_and_without_user() {
    let mut p = profile(1, "a", " host ");
    assert_eq!(p.destination(), " host ");
    p.user = "  ".into();
    assert_eq!(p.destination(), " host ");
    p.user = " ops ".into();
    assert_eq!(p.destination(), "ops@host");
}

#[test]
fn host_label_shows_the_port() {
    let mut p = profile(1, "a", " host ");
    p.port = 65535;
    assert_eq!(p.host_label(), "host:65535");
    p.port = 0;
    assert_eq!(p.host_label(), "host:0");
}

#[test]
fn profile_normalize_trims_and_sets_port() {
    let mut p = profile(1, " a\t", "\u{3000}h\u{a0}");
    p.user = " u ".into();
    p.password = " p ".into();
    p.identity_file = " i ".into();
    p.remote_command = " ls -l ".into();
    p.note = "\nn\n".into();
    p.port = 0;
    p.normalize();
    assert_eq!(p.name, "a");
    assert_eq!(p.host, "h");
    assert_eq!(p.user, "u");
    assert_eq!(p.password, "p");
    assert_eq!(p.identity_file, "i");
    assert_eq!(p.remote_command, "ls -l");
    assert_eq!(p.note, "n");
    assert_eq!(p.port, 22);
    let again = p.clone();
    p.normalize();
    assert_eq!(p, again);
}

#[test]
fn store_normalize_sorts_and_drops() {
    let mut in_b = profile(1, "zeta", "h");
    in_b.folder_id = Some(id(20));
    let mut in_a = profile(2, "Alpha", "h");
    in_a.folder_id = Some(id(10));
    let mut store = ConnectionStore {
        folders: vec![
            folder(20, " beta "),
            folder(30, "unused"),
            folder(40, "   "),
            folder(10, "Alpha folder"),
        ],
        connections: vec![
            in_b,
            profile(3, "  ", "\t"),
            in_a,
            profile(4, "Bravo", "h2"),
            profile(5, "bravo", "H1"),
        ],
    };
    store.normalize();
    assert_eq!(names(&store), vec!["bravo", "Bravo", "Alpha", "zeta"]);
    let folders: Vec<&str> = store.folders.iter().map(|f| f.name.as_str()).collect();
    assert_eq!(folders, vec!["Alpha folder", "beta"]);
}

#[test]
fn store_normalize_is_idempotent() {
    let mut store = ConnectionStore::default();
    store.folders.push(folder(1, " Ä "));
    store.folders.push(folder(2, "b"));
    for n in 0..6 {
        let mut p = profile(100 + n, if n % 2 == 0 { " Same " } else { "other" }, "h");
        p.folder_id = Some(id(1 + n % 3));
        p.port = 0;
        store.connections.push(p);
    }
    store.normalize();
    let folders = store.folders.clone();
    let connections = store.connections.clone();
    store.normalize();
    assert_eq!(store.folders, folders);
    assert_eq!(store.connections, connections);
}

#[test]
fn equal_keys_stay_in_order() {
    let mut store = ConnectionStore::default();
    for n in 0..5 {
        store.connections.push(profile(n, "SAME", "host"));
    }
    store.normalize();
    let ids: Vec<Uuid> = store.connections.iter().map(|c| c.id).collect();
    assert_eq!(ids, vec![id(0), id(1), id(2), id(3), id(4)]);
}

#[test]
fn duplicate_folder_ids_first_names_last_sorts() {
    let mut c = profile(1, "x", "h");
    c.folder_id = Some(id(7));
    let store = ConnectionStore {
        folders: vec![folder(7, "aaa"), folder(7, "zzz")],
        connections: vec![c, profile(2, "y", "h")],
    };
    assert_eq!(store.folder_name(Some(id(7))), Some("aaa"));
    let sorted: Vec<&str> = store
        .sorted_connections()
        .iter()
        .map(|c| c.name.as_str())
        .collect();
    assert_eq!(sorted, vec!["y", "x"]);
    assert_eq!(store.folder_name(None), None);
    assert_eq!(store.folder_name(Some(id(8))), None);
}

#[test]
fn ensure_folder_finds_or_adds() {
    let mut store = ConnectionStore::default();
    assert_eq!(store.ensure_folder_named("  "), None);
    assert!(store.folders.is_empty());
    let first = store.ensure_folder_named(" Production ");
    assert!(first.is_some());
    assert_eq!(store.folder_name(first), Some("Production"));
    assert_eq!(store.ensure_folder_named("PRODUCTION"), first);
    assert_eq!(store.folders.len(), 1);
    assert_eq!(store.ensure_folder("alpha", id(9)), Some(id(9)));
    assert_eq!(store.folders[0].name, "alpha");
    assert_eq!(store.ensure_folder("Alpha", id(10)), Some(id(9)));
    // Case counts for letters outside ASCII.
    assert_eq!(store.ensure_folder("É", id(11)), Some(id(11)));
    assert_eq!(store.ensure_folder("é", id(12)), Some(id(12)));
}

#[test]
fn upsert_adds_and_replaces() {
    let mut store = ConnectionStore::default();
    store.upsert(profile(1, " one ", "h"));
    store.upsert(profile(2, "two", "h"));
    assert_eq!(names(&store), vec!["one", "two"]);
    let mut changed = profile(1, "zzz", "h");
    changed.port = 0;
    store.upsert(changed);
    assert_eq!(names(&store), vec!["two", "zzz"]);
    assert_eq!(store.connection(id(1)).unwrap().port, 22);
    assert_eq!(store.connection(id(2)).unwrap().name, "two");
    assert!(store.connection(id(3)).is_none());
    store.upsert(profile(3, "", " "));
    assert!(store.connection(id(3)).is_none());
}

#[test]
fn remove_takes_connection_and_unused_folder() {
    let mut store = ConnectionStore::default();
    let f = store.ensure_folder("f", id(50));
    let mut p = profile(1, "one", "h");
    p.folder_id = f;
    store.upsert(p);
    store.upsert(profile(2, "two", "h"));
    assert_eq!(store.folders.len(), 1);
    assert!(store.remove(id(9)).is_none());
    assert_eq!(store.remove(id(1)).unwrap().name, "one");
    assert!(store.folders.is_empty());
    assert!(store.connection(id(1)).is_none());
    assert_eq!(store.connection(id(2)).unwrap().name, "two");
}

#[test]
fn normalized_store_keeps_folder_and_backend() {
    let mut store = ConnectionStore::default();
    let folder_id = store.ensure_folder_named("Production");
    let mut p = ConnectionProfile::new("Edge Node", "192.168.1.10");
    p.folder_id = folder_id;
    p.user = "deploy".into();
    p.backend = ConnectionBackend::WezTermSsh;
    store.upsert(p.clone());
    let mut loaded = store.clone();
    loaded.normalize();
    loaded.normalize();
    assert_eq!(loaded.connections.len(), 1);
    assert_eq!(loaded.connections[0].name, p.name);
    assert_eq!(loaded.connections[0].backend, ConnectionBackend::WezTermSsh);
    assert_eq!(loaded.folder_name(loaded.connections[0].folder_id), Some("Production"));
}

#[test]
fn connection_repository_keeps_its_path() {
    let repository = ConnectionRepository::new(PathBuf::from("/tmp/c.json"));
    assert_eq!(repository.path(), &PathBuf::from("/tmp/c.json"));
}

#[test]
fn draft_of_profile_and_back() {
    let mut store = ConnectionStore::default();
    let f = store.ensure_folder("Lab", id(50));
    let mut p = profile(1, "one", "h");
    p.folder_id = f;
    p.user = "u".into();
    p.terminal.initial_cols = Some(90);
    store.upsert(p.clone());
    let draft = ConnectionDraft::from_profile(&store, &p);
    assert_eq!(draft.folder, "Lab");
    assert_eq!(draft.id, Some(id(1)));
    let before = store.connections.clone();
    let back = draft.into_profile(&mut store);
    assert_eq!(back, p);
    store.upsert(back);
    assert_eq!(store.connections, before);
    assert_eq!(store.folders.len(), 1);
}

#[test]
fn empty_draft_becomes_a_new_connection() {
    let mut store = ConnectionStore::default();
    let mut draft = ConnectionDraft::empty();
    assert_eq!(draft.port, 22);
    assert!(draft.accept_new_host);
    draft.host = " h ".into();
    draft.folder = "Lab".into();
    let p = draft.into_profile_with(&mut store, id(1), id(2));
    assert_eq!(p.id, id(2));
    assert_eq!(p.name, "New connection");
    assert_eq!(p.host, "h");
    assert_eq!(p.folder_id, Some(id(1)));
    assert_eq!(store.folders.len(), 1);
}

#[test]
fn sidebar_lists_connections_by_folder() {
    let mut store = ConnectionStore::default();
    let f = store.ensure_folder("zoo", id(50));
    let g = store.ensure_folder("Attic", id(51));
    for (n, name, folder) in [(1, "c", f), (2, "a", f), (3, "b", None), (4, "d", g)] {
        let mut p = profile(n, name, "h");
        p.folder_id = folder;
        store.connections.push(p);
    }
    store.connections[0].backend = ConnectionBackend::WezTermSsh;
    let sections = sidebar_sections(&store, Some(id(2)));
    let titles: Vec<&str> = sections.iter().map(|s| s.title.as_str()).collect();
    assert_eq!(titles, vec!["Attic", "Ungrouped", "zoo"]);
    let rows: Vec<(&str, &str, bool)> = sections[2]
        .rows
        .iter()
        .map(|r| (r.name.as_str(), r.meta.as_str(), r.selected))
        .collect();
    assert_eq!(
        rows,
        vec![("a", "h:22 · System OpenSSH", true), ("c", "h:22 · WezTerm SSH", false)]
    );
    assert_eq!(sections[0].rows[0].id, id(4));
    let key = sections[0].rows[0].key();
    assert_eq!(key, "00000000-0000-0000-0000-000000000004");
    assert_eq!(row_connection(Some(&key)), Some(id(4)));
    assert_eq!(row_connection(Some("Menu")), None);
    assert_eq!(row_connection(None), None);
    assert_eq!(sections[1].rows.len(), 1);
    assert!(sidebar_sections(&ConnectionStore::default(), None).is_empty());
}

fn grouped() -> ConnectionStore {
    let mut store = ConnectionStore::default();
    let lab = store.ensure_folder("Lab", id(50));
    for (n, name, f) in [(2, "b", lab), (1, "m", None), (3, "Z", None), (4, "x", lab)] {
        let mut p = profile(n, name, "h");
        p.folder_id = f;
        store.upsert(p);
    }
    store
}

#[test]
fn connections_without_a_folder_come_first() {
    let store = grouped();
    assert_eq!(names(&store), vec!["m", "Z", "b", "x"]);
    let sorted: Vec<&str> = store.sorted_connections().iter().map(|c| c.name.as_str()).collect();
    assert_eq!(sorted, vec!["m", "Z", "b", "x"]);
}

#[test]
fn upsert_keeps_the_order_of_the_others() {
    let mut store = grouped();
    let mut p = profile(1, "y", "h");
    p.folder_id = Some(id(50));
    store.upsert(p);
    assert_eq!(names(&store), vec!["Z", "b", "x", "y"]);
    store.upsert(profile(2, " ", ""));
    assert_eq!(names(&store), vec!["Z", "x", "y"]);
    store.upsert(profile(9, "n", ""));
    assert_eq!(names(&store), vec!["n", "Z", "x", "y"]);
}

#[test]
fn a_new_connection_taken_out_restores_the_store() {
    let mut store = grouped();
    let (folders, connections) = (store.folders.clone(), store.connections.clone());
    let mut p = profile(9, "c", "h");
    p.folder_id = Some(id(50));
    store.upsert(p);
    assert_eq!(names(&store), vec!["m", "Z", "b", "c", "x"]);
    assert_eq!(store.remove(id(9)).unwrap().name, "c");
    assert_eq!(store.folders, folders);
    assert_eq!(store.connections, connections);
}
