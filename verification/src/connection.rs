//! Connection profiles, the folders they are kept in, and the store of both.

use std::path::PathBuf;
use uuid::Uuid;
use vstd::prelude::*;
use crate::config;
use crate::config::TerminalSettings;
use crate::ids;
use crate::order;
use crate::seqs;
use crate::text;

verus! {

/// The port used when a profile names none.
pub const DEFAULT_SSH_PORT: u16 = 22;

/// How a connection is made.
#[derive(Debug, Clone, Copy, PartialEq, Eq, Structural)]
pub enum ConnectionBackend {
    SystemOpenSsh,
    WezTermSsh,
}

impl Default for ConnectionBackend {
    fn default() -> (r: Self)
        ensures
            r == ConnectionBackend::SystemOpenSsh,
    {
        ConnectionBackend::SystemOpenSsh
    }
}

impl ConnectionBackend {
    /// The text shown for the backend.
    pub open spec fn caption(self) -> Seq<char> {
        match self {
            ConnectionBackend::SystemOpenSsh => "System OpenSSH"@,
            ConnectionBackend::WezTermSsh => "WezTerm SSH"@,
        }
    }

    /// The text shown for the backend.
    pub fn label(self) -> (r: &'static str)
        ensures
            r@ == self.caption(),
    {
        match self {
            Self::SystemOpenSsh => "System OpenSSH",
            Self::WezTermSsh => "WezTerm SSH",
        }
    }
}

/// A folder of connections.
#[derive(Debug, PartialEq, Eq)]
pub struct ConnectionFolder {
    pub id: Uuid,
    pub name: String,
}

/// `ConnectionFolder` with its name as a sequence of characters.
#[verifier::ext_equal]
pub struct FolderView {
    pub id: Uuid,
    pub name: Seq<char>,
}

impl View for ConnectionFolder {
    type V = FolderView;

    open spec fn view(&self) -> FolderView {
        FolderView { id: self.id, name: self.name@ }
    }
}

impl Clone for ConnectionFolder {
    fn clone(&self) -> (r: Self)
        ensures
            r == *self,
    {
        ConnectionFolder { id: self.id, name: self.name.clone() }
    }
}

impl ConnectionFolder {
    /// A folder with an identifier of its own.
    pub fn new(name: &str) -> (r: Self)
        ensures
            r@ == (FolderView { id: r.id, name: name@ }),
    {
        ConnectionFolder { id: ids::new_id(), name: name.to_owned() }
    }
}

/// A connection: where it leads and how it is made.
#[derive(Debug, PartialEq, Eq)]
pub struct ConnectionProfile {
    pub id: Uuid,
    pub name: String,
    pub folder_id: Option<Uuid>,
    pub host: String,
    pub port: u16,
    pub user: String,
    pub password: String,
    pub identity_file: String,
    pub remote_command: String,
    pub note: String,
    pub backend: ConnectionBackend,
    pub accept_new_host: bool,
    pub terminal: TerminalSettings,
}

/// `ConnectionProfile` with its texts as sequences of characters.
#[verifier::ext_equal]
pub struct ProfileView {
    pub id: Uuid,
    pub name: Seq<char>,
    pub folder_id: Option<Uuid>,
    pub host: Seq<char>,
    pub port: u16,
    pub user: Seq<char>,
    pub password: Seq<char>,
    pub identity_file: Seq<char>,
    pub remote_command: Seq<char>,
    pub note: Seq<char>,
    pub backend: ConnectionBackend,
    pub accept_new_host: bool,
    pub terminal: config::TerminalSettingsView,
}

impl View for ConnectionProfile {
    type V = ProfileView;

    open spec fn view(&self) -> ProfileView {
        ProfileView {
            id: self.id,
            name: self.name@,
            folder_id: self.folder_id,
            host: self.host@,
            port: self.port,
            user: self.user@,
            password: self.password@,
            identity_file: self.identity_file@,
            remote_command: self.remote_command@,
            note: self.note@,
            backend: self.backend,
            accept_new_host: self.accept_new_host,
            terminal: self.terminal@,
        }
    }
}

impl Clone for ConnectionProfile {
    fn clone(&self) -> (r: Self)
        ensures
            r == *self,
    {
        ConnectionProfile {
            id: self.id,
            name: self.name.clone(),
            folder_id: self.folder_id,
            host: self.host.clone(),
            port: self.port,
            user: self.user.clone(),
            password: self.password.clone(),
            identity_file: self.identity_file.clone(),
            remote_command: self.remote_command.clone(),
            note: self.note.clone(),
            backend: self.backend,
            accept_new_host: self.accept_new_host,
            terminal: self.terminal.clone(),
        }
    }
}

/// A profile with the given name and host and nothing else set.
pub open spec fn plain_profile(id: Uuid, name: Seq<char>, host: Seq<char>) -> ProfileView {
    ProfileView {
        id,
        name,
        folder_id: None,
        host,
        port: DEFAULT_SSH_PORT,
        user: Seq::empty(),
        password: Seq::empty(),
        identity_file: Seq::empty(),
        remote_command: Seq::empty(),
        note: Seq::empty(),
        backend: ConnectionBackend::SystemOpenSsh,
        accept_new_host: true,
        terminal: config::unset_settings(),
    }
}

/// Where a profile leads: the host, with the trimmed user before it where there is
/// one.
pub open spec fn destination_of(p: ProfileView) -> Seq<char> {
    if text::trimmed(p.user).len() == 0 {
        p.host
    } else {
        text::trimmed(p.user) + "@"@ + text::trimmed(p.host)
    }
}

/// The trimmed host and the port.
pub open spec fn host_label_of(p: ProfileView) -> Seq<char> {
    text::trimmed(p.host) + ":"@ + text::decimal(p.port as nat)
}

/// `p` with its texts trimmed and the default port in place of port 0.
pub open spec fn normalized_profile(p: ProfileView) -> ProfileView {
    ProfileView {
        name: text::trimmed(p.name),
        host: text::trimmed(p.host),
        user: text::trimmed(p.user),
        password: text::trimmed(p.password),
        identity_file: text::trimmed(p.identity_file),
        remote_command: text::trimmed(p.remote_command),
        note: text::trimmed(p.note),
        port: if p.port == 0 {
            DEFAULT_SSH_PORT
        } else {
            p.port
        },
        ..p
    }
}

fn trimmed_text(s: &String) -> (r: String)
    ensures
        r@ == text::trimmed(s@),
{
    text::trim(s.as_str()).to_owned()
}

impl ConnectionProfile {
    /// A profile with an identifier of its own.
    pub fn new(name: &str, host: &str) -> (r: Self)
        ensures
            r@ == plain_profile(r.id, name@, host@),
    {
        ConnectionProfile::with_id(ids::new_id(), name, host)
    }

    /// A profile with the given identifier.
    pub fn with_id(id: Uuid, name: &str, host: &str) -> (r: Self)
        ensures
            r@ == plain_profile(id, name@, host@),
    {
        ConnectionProfile {
            id,
            name: name.to_owned(),
            folder_id: None,
            host: host.to_owned(),
            port: DEFAULT_SSH_PORT,
            user: String::new(),
            password: String::new(),
            identity_file: String::new(),
            remote_command: String::new(),
            note: String::new(),
            backend: ConnectionBackend::SystemOpenSsh,
            accept_new_host: true,
            terminal: TerminalSettings::default(),
        }
    }

    /// Where the profile leads, as the ssh program takes it.
    pub fn destination(&self) -> (r: String)
        ensures
            r@ == destination_of(self@),
    {
        let user = text::trim(self.user.as_str());
        if user.unicode_len() == 0 {
            self.host.clone()
        } else {
            let with_at = text::joined(user, "@");
            text::joined(with_at.as_str(), text::trim(self.host.as_str()))
        }
    }

    /// Host and port as they are shown.
    pub fn host_label(&self) -> (r: String)
        ensures
            r@ == host_label_of(self@),
    {
        let host = text::joined(text::trim(self.host.as_str()), ":");
        let port = text::decimal_of(self.port as u64);
        text::joined(host.as_str(), port.as_str())
    }

    /// Trims the texts and sets the default port in place of port 0.
    pub fn normalize(&mut self)
        ensures
            final(self)@ == normalized_profile(old(self)@),
    {
        self.name = trimmed_text(&self.name);
        self.host = trimmed_text(&self.host);
        self.user = trimmed_text(&self.user);
        self.password = trimmed_text(&self.password);
        self.identity_file = trimmed_text(&self.identity_file);
        self.remote_command = trimmed_text(&self.remote_command);
        self.note = trimmed_text(&self.note);
        if self.port == 0 {
            self.port = DEFAULT_SSH_PORT;
        }
    }
}

impl Default for ConnectionProfile {
    fn default() -> (r: Self)
        ensures
            r@ == plain_profile(r.id, "New connection"@, Seq::empty()),
    {
        proof {
            reveal_strlit("");
        }
        ConnectionProfile::new("New connection", "")
    }
}

/// The folders and the connections of a user.
#[derive(Debug)]
pub struct ConnectionStore {
    pub folders: Vec<ConnectionFolder>,
    pub connections: Vec<ConnectionProfile>,
}

/// `ConnectionStore` with folders and connections by their views.
#[verifier::ext_equal]
pub struct StoreView {
    pub folders: Seq<FolderView>,
    pub connections: Seq<ProfileView>,
}

/// Folders by their views.
pub open spec fn folder_views(folders: Seq<ConnectionFolder>) -> Seq<FolderView> {
    Seq::new(folders.len(), |i: int| folders[i]@)
}

/// Profiles by their views.
pub open spec fn profile_views(profiles: Seq<ConnectionProfile>) -> Seq<ProfileView> {
    Seq::new(profiles.len(), |i: int| profiles[i]@)
}

impl View for ConnectionStore {
    type V = StoreView;

    open spec fn view(&self) -> StoreView {
        StoreView {
            folders: folder_views(self.folders@),
            connections: profile_views(self.connections@),
        }
    }
}

impl Default for ConnectionStore {
    fn default() -> (r: Self)
        ensures
            r@ == (StoreView { folders: Seq::empty(), connections: Seq::empty() }),
    {
        ConnectionStore { folders: Vec::new(), connections: Vec::new() }
    }
}

impl Clone for ConnectionStore {
    fn clone(&self) -> (r: Self)
        ensures
            r@ == self@,
    {
        let mut folders: Vec<ConnectionFolder> = Vec::new();
        let mut i: usize = 0;
        while i < self.folders.len()
            invariant
                i <= self.folders@.len(),
                folders@ == self.folders@.take(i as int),
            decreases self.folders@.len() - i,
        {
            folders.push(self.folders[i].clone());
            i = i + 1;
        }
        let mut connections: Vec<ConnectionProfile> = Vec::new();
        let mut j: usize = 0;
        while j < self.connections.len()
            invariant
                j <= self.connections@.len(),
                connections@ == self.connections@.take(j as int),
            decreases self.connections@.len() - j,
        {
            connections.push(self.connections[j].clone());
            j = j + 1;
        }
        ConnectionStore { folders, connections }
    }
}

/// The folder with its name trimmed.
pub open spec fn trimmed_folder(f: FolderView) -> FolderView {
    FolderView { name: text::trimmed(f.name), ..f }
}

/// Whether a folder has a name.
pub open spec fn is_named() -> spec_fn(FolderView) -> bool {
    |f: FolderView| f.name.len() > 0
}

/// Whether a profile has a name or a host.
pub open spec fn is_usable() -> spec_fn(ProfileView) -> bool {
    |p: ProfileView| p.name.len() > 0 || p.host.len() > 0
}

/// The condition that a folder has the identifier `id`.
pub open spec fn folder_has_id(id: Uuid) -> spec_fn(FolderView) -> bool {
    |f: FolderView| f.id == id
}

/// The condition that a profile has the identifier `id`.
pub open spec fn profile_has_id(id: Uuid) -> spec_fn(ProfileView) -> bool {
    |p: ProfileView| p.id == id
}

/// Whether some connection lies in the folder.
pub open spec fn holds_some(connections: Seq<ProfileView>, f: FolderView) -> bool {
    exists|i: int| 0 <= i < connections.len() && #[trigger] connections[i].folder_id == Some(f.id)
}

/// The condition that some connection lies in a folder.
pub open spec fn is_used(connections: Seq<ProfileView>) -> spec_fn(FolderView) -> bool {
    |f: FolderView| holds_some(connections, f)
}

/// The key that folders are sorted by: the name in lower case.
pub open spec fn folder_key(f: FolderView) -> order::SortKey {
    seq![text::lowered(f.name)]
}

/// The keys of folders.
pub open spec fn folder_keys(folders: Seq<FolderView>) -> Seq<order::SortKey> {
    Seq::new(folders.len(), |i: int| folder_key(folders[i]))
}

/// Folders sorted by name without regard to case; equal names stay in order.
pub open spec fn sorted_folders(folders: Seq<FolderView>) -> Seq<FolderView> {
    order::arranged(folders, order::stable_order(folder_keys(folders)))
}

/// The name by which a connection is sorted into its folder: that of the last
/// folder with the identifier; empty where there is none.
pub open spec fn sorting_folder_name(folders: Seq<FolderView>, id: Option<Uuid>) -> Seq<char> {
    match id {
        Some(id) => match seqs::last_where(folders, folder_has_id(id)) {
            Some(f) => f.name,
            None => Seq::empty(),
        },
        None => Seq::empty(),
    }
}

/// The key that connections are sorted by: folder, name and host in lower case.
pub open spec fn profile_key(folders: Seq<FolderView>, p: ProfileView) -> order::SortKey {
    seq![
        text::lowered(sorting_folder_name(folders, p.folder_id)),
        text::lowered(p.name),
        text::lowered(p.host),
    ]
}

/// The keys of connections.
pub open spec fn profile_keys(folders: Seq<FolderView>, connections: Seq<ProfileView>) -> Seq<
    order::SortKey,
> {
    Seq::new(connections.len(), |i: int| profile_key(folders, connections[i]))
}

/// Connections sorted by folder, name and host without regard to case; equal ones
/// stay in order.
pub open spec fn sorted_profiles(folders: Seq<FolderView>, connections: Seq<ProfileView>) -> Seq<
    ProfileView,
> {
    order::arranged(connections, order::stable_order(profile_keys(folders, connections)))
}

/// The named folders with trimmed names, sorted.
pub open spec fn tidy_folders(folders: Seq<FolderView>) -> Seq<FolderView> {
    sorted_folders(
        Seq::new(folders.len(), |i: int| trimmed_folder(folders[i])).filter(is_named()),
    )
}

/// The usable connections, normalized.
pub open spec fn tidy_profiles(connections: Seq<ProfileView>) -> Seq<ProfileView> {
    Seq::new(connections.len(), |i: int| normalized_profile(connections[i])).filter(is_usable())
}

/// `s` with texts trimmed, what is empty dropped, folders and connections sorted and
/// unused folders dropped.
pub open spec fn normalized_store(s: StoreView) -> StoreView {
    let folders = tidy_folders(s.folders);
    let connections = sorted_profiles(folders, tidy_profiles(s.connections));
    StoreView { folders: folders.filter(is_used(connections)), connections }
}

/// `s` without the folders that no connection lies in.
pub open spec fn without_unused_folders(s: StoreView) -> StoreView {
    StoreView { folders: s.folders.filter(is_used(s.connections)), ..s }
}

/// An optional text as an optional sequence of characters.
pub open spec fn optional_text(t: Option<&str>) -> Option<Seq<char>> {
    match t {
        Some(s) => Some(s@),
        None => None,
    }
}

/// An optional profile by its view.
pub open spec fn optional_profile(p: Option<&ConnectionProfile>) -> Option<ProfileView> {
    match p {
        Some(p) => Some(p@),
        None => None,
    }
}

/// The name of the first folder with the identifier.
pub open spec fn folder_name_of(s: StoreView, id: Option<Uuid>) -> Option<Seq<char>> {
    match id {
        Some(id) => match seqs::first_where(s.folders, folder_has_id(id)) {
            Some(f) => Some(f.name),
            None => None,
        },
        None => None,
    }
}

/// The condition that a folder has the name, up to the case of ASCII letters.
pub open spec fn folder_is_named(name: Seq<char>) -> spec_fn(FolderView) -> bool {
    |f: FolderView| text::same_ignoring_ascii_case(f.name, name)
}

/// `s` with a folder of the given name, and that folder's identifier. A folder that
/// has the name already is taken; else one is added as `fresh`.
pub open spec fn with_folder_named(s: StoreView, name: Seq<char>, fresh: Uuid) -> (
    StoreView,
    Option<Uuid>,
) {
    let name = text::trimmed(name);
    if name.len() == 0 {
        (s, None)
    } else {
        match seqs::first_where(s.folders, folder_is_named(name)) {
            Some(f) => (s, Some(f.id)),
            None => {
                let folders = sorted_folders(s.folders.push(FolderView { id: fresh, name }));
                (StoreView { folders, ..s }, Some(fresh))
            },
        }
    }
}

/// The first connection with the identifier.
pub open spec fn connection_of(s: StoreView, id: Uuid) -> Option<ProfileView> {
    seqs::first_where(s.connections, profile_has_id(id))
}

/// `connections` with `p` in the place of the first one that has its identifier, or
/// at the end.
pub open spec fn replaced(connections: Seq<ProfileView>, p: ProfileView) -> Seq<ProfileView> {
    match seqs::first_index(connections, profile_has_id(p.id)) {
        Some(i) => connections.update(i, p),
        None => connections.push(p),
    }
}

/// `s` with the normalized `p` in it, normalized.
pub open spec fn upserted(s: StoreView, p: ProfileView) -> StoreView {
    normalized_store(
        StoreView { connections: replaced(s.connections, normalized_profile(p)), ..s },
    )
}

/// `s` without the first connection with the identifier and without the folders that
/// are unused then.
pub open spec fn removed(s: StoreView, id: Uuid) -> StoreView {
    match seqs::first_index(s.connections, profile_has_id(id)) {
        Some(i) => without_unused_folders(
            StoreView { connections: s.connections.remove(i), ..s },
        ),
        None => s,
    }
}

fn sort_folders(folders: &Vec<ConnectionFolder>) -> (r: Vec<ConnectionFolder>)
    ensures
        folder_views(r@) == sorted_folders(folder_views(folders@)),
{
    let ghost views = folder_views(folders@);
    let mut keys: Vec<Vec<String>> = Vec::new();
    let mut i: usize = 0;
    while i < folders.len()
        invariant
            views == folder_views(folders@),
            i <= folders@.len(),
            keys@.len() == i,
            forall|j: int| 0 <= j < i ==> (#[trigger] keys@[j]).deep_view() == folder_key(views[j]),
        decreases folders@.len() - i,
    {
        let mut key: Vec<String> = Vec::new();
        key.push(text::lower_case(folders[i].name.as_str()));
        assert(key.deep_view() =~= folder_key(views[i as int]));
        keys.push(key);
        i = i + 1;
    }
    assert(keys.deep_view() =~= folder_keys(views));
    let order = order::sort_order(&keys);
    let mut r: Vec<ConnectionFolder> = Vec::new();
    let mut k: usize = 0;
    while k < order.len()
        invariant
            views == folder_views(folders@),
            k <= order@.len(),
            order@.len() == folders@.len(),
            forall|j: int| 0 <= j < order@.len() ==> #[trigger] order@[j] < folders@.len(),
            r@.len() == k,
            forall|j: int| 0 <= j < k ==> #[trigger] r@[j] == folders@[order@[j] as int],
        decreases order@.len() - k,
    {
        r.push(folders[order[k]].clone());
        k = k + 1;
    }
    assert(folder_views(r@) =~= sorted_folders(views));
    r
}

/// The name by which a connection is sorted into its folder.
fn sorting_name(folders: &Vec<ConnectionFolder>, id: Option<Uuid>) -> (r: String)
    ensures
        r@ == sorting_folder_name(folder_views(folders@), id),
{
    let ghost views = folder_views(folders@);
    let wanted = match id {
        Some(wanted) => wanted,
        None => {
            return String::new();
        },
    };
    let ghost p = folder_has_id(wanted);
    let mut n: usize = folders.len();
    assert(views.take(n as int) =~= views);
    while n > 0
        invariant
            views == folder_views(folders@),
            id == Some(wanted),
            p == folder_has_id(wanted),
            n <= folders@.len(),
            seqs::last_where(views, p) == seqs::last_where(views.take(n as int), p),
        decreases n,
    {
        assert(views.take(n as int).last() == views[n - 1]);
        assert(views.take(n as int).drop_last() =~= views.take(n - 1));
        if ids::same_id(folders[n - 1].id, wanted) {
            return folders[n - 1].name.clone();
        }
        n = n - 1;
    }
    String::new()
}

fn profile_sort_order(folders: &Vec<ConnectionFolder>, connections: &Vec<ConnectionProfile>) -> (r:
    Vec<usize>)
    ensures
        order::as_ints(r@) == order::stable_order(
            profile_keys(folder_views(folders@), profile_views(connections@)),
        ),
        r@.len() == connections@.len(),
        forall|i: int| 0 <= i < r@.len() ==> #[trigger] r@[i] < connections@.len(),
{
    let ghost fs = folder_views(folders@);
    let ghost cs = profile_views(connections@);
    let mut keys: Vec<Vec<String>> = Vec::new();
    let mut i: usize = 0;
    while i < connections.len()
        invariant
            fs == folder_views(folders@),
            cs == profile_views(connections@),
            i <= connections@.len(),
            keys@.len() == i,
            forall|j: int|
                0 <= j < i ==> (#[trigger] keys@[j]).deep_view() == profile_key(fs, cs[j]),
        decreases connections@.len() - i,
    {
        let folder = sorting_name(folders, connections[i].folder_id);
        let mut key: Vec<String> = Vec::new();
        key.push(text::lower_case(folder.as_str()));
        key.push(text::lower_case(connections[i].name.as_str()));
        key.push(text::lower_case(connections[i].host.as_str()));
        assert(key.deep_view() =~= profile_key(fs, cs[i as int]));
        keys.push(key);
        i = i + 1;
    }
    assert(keys.deep_view() =~= profile_keys(fs, cs));
    order::sort_order(&keys)
}

fn sort_profiles(folders: &Vec<ConnectionFolder>, connections: &Vec<ConnectionProfile>) -> (r: Vec<
    ConnectionProfile,
>)
    ensures
        profile_views(r@) == sorted_profiles(folder_views(folders@), profile_views(connections@)),
{
    let order = profile_sort_order(folders, connections);
    let mut r: Vec<ConnectionProfile> = Vec::new();
    let mut k: usize = 0;
    while k < order.len()
        invariant
            k <= order@.len(),
            order@.len() == connections@.len(),
            forall|j: int| 0 <= j < order@.len() ==> #[trigger] order@[j] < connections@.len(),
            r@.len() == k,
            forall|j: int| 0 <= j < k ==> #[trigger] r@[j] == connections@[order@[j] as int],
        decreases order@.len() - k,
    {
        r.push(connections[order[k]].clone());
        k = k + 1;
    }
    assert(profile_views(r@) =~= order::arranged(
        profile_views(connections@),
        order::as_ints(order@),
    ));
    r
}

fn lies_in_some(connections: &Vec<ConnectionProfile>, id: Uuid) -> (r: bool)
    ensures
        forall|f: FolderView|
            f.id == id ==> r == #[trigger] holds_some(profile_views(connections@), f),
{
    let ghost cs = profile_views(connections@);
    let mut i: usize = 0;
    while i < connections.len()
        invariant
            cs == profile_views(connections@),
            i <= connections@.len(),
            forall|j: int| 0 <= j < i ==> (#[trigger] cs[j]).folder_id != Some(id),
        decreases connections@.len() - i,
    {
        if ids::same_optional_id(connections[i].folder_id, Some(id)) {
            assert(cs[i as int].folder_id == Some(id));
            return true;
        }
        i = i + 1;
    }
    false
}

impl ConnectionStore {
    /// Trims the texts, drops what is empty, sorts folders and connections and drops
    /// unused folders.
    pub fn normalize(&mut self)
        ensures
            final(self)@ == normalized_store(old(self)@),
    {
        let ghost given = old(self)@;
        let ghost trimmed = Seq::new(given.folders.len(), |i: int| trimmed_folder(given.folders[i]));
        let mut folders: Vec<ConnectionFolder> = Vec::new();
        let mut i: usize = 0;
        assert(trimmed.take(0).filter(is_named()) =~= Seq::empty()) by {
            reveal(Seq::filter);
        }
        assert(folder_views(folders@) =~= Seq::empty());
        while i < self.folders.len()
            invariant
                given == self@,
                trimmed == Seq::new(
                    given.folders.len(),
                    |i: int| trimmed_folder(given.folders[i]),
                ),
                i <= self.folders@.len(),
                folder_views(folders@) == trimmed.take(i as int).filter(is_named()),
            decreases self.folders@.len() - i,
        {
            let name = trimmed_text(&self.folders[i].name);
            let named = name.as_str().unicode_len() > 0;
            let ghost before = folders@;
            proof {
                seqs::filter_step(trimmed, is_named(), i as int);
            }
            if named {
                folders.push(ConnectionFolder { id: self.folders[i].id, name });
                assert(folder_views(folders@) =~= folder_views(before).push(trimmed[i as int]));
            }
            i = i + 1;
        }
        assert(trimmed.take(i as int) =~= trimmed);
        self.folders = sort_folders(&folders);

        let ghost normal = Seq::new(
            given.connections.len(),
            |i: int| normalized_profile(given.connections[i]),
        );
        let mut connections: Vec<ConnectionProfile> = Vec::new();
        let mut j: usize = 0;
        assert(normal.take(0).filter(is_usable()) =~= Seq::empty()) by {
            reveal(Seq::filter);
        }
        assert(profile_views(connections@) =~= Seq::empty());
        while j < self.connections.len()
            invariant
                given.connections == profile_views(self.connections@),
                folder_views(self.folders@) == tidy_folders(given.folders),
                normal == Seq::new(
                    given.connections.len(),
                    |i: int| normalized_profile(given.connections[i]),
                ),
                j <= self.connections@.len(),
                profile_views(connections@) == normal.take(j as int).filter(is_usable()),
            decreases self.connections@.len() - j,
        {
            let mut profile = self.connections[j].clone();
            profile.normalize();
            let ghost before = connections@;
            proof {
                seqs::filter_step(normal, is_usable(), j as int);
            }
            if profile.name.as_str().unicode_len() > 0 || profile.host.as_str().unicode_len() > 0 {
                connections.push(profile);
                assert(profile_views(connections@) =~= profile_views(before).push(
                    normal[j as int],
                ));
            }
            j = j + 1;
        }
        assert(normal.take(j as int) =~= normal);
        self.connections = sort_profiles(&self.folders, &connections);
        self.cleanup_unused_folders();
    }

    /// Drops the folders that no connection lies in.
    pub fn cleanup_unused_folders(&mut self)
        ensures
            final(self)@ == without_unused_folders(old(self)@),
    {
        let ghost given = old(self)@;
        let ghost p = is_used(given.connections);
        let mut folders: Vec<ConnectionFolder> = Vec::new();
        let mut i: usize = 0;
        assert(given.folders.take(0).filter(p) =~= Seq::empty()) by {
            reveal(Seq::filter);
        }
        assert(folder_views(folders@) =~= Seq::empty());
        while i < self.folders.len()
            invariant
                given == self@,
                p == is_used(given.connections),
                i <= self.folders@.len(),
                folder_views(folders@) == given.folders.take(i as int).filter(p),
            decreases self.folders@.len() - i,
        {
            let ghost before = folders@;
            proof {
                seqs::filter_step(given.folders, p, i as int);
            }
            if lies_in_some(&self.connections, self.folders[i].id) {
                assert(p(given.folders[i as int]));
                folders.push(self.folders[i].clone());
                assert(folder_views(folders@) =~= folder_views(before).push(
                    given.folders[i as int],
                ));
            } else {
                assert(!p(given.folders[i as int]));
            }
            i = i + 1;
        }
        assert(given.folders.take(i as int) =~= given.folders);
        self.folders = folders;
    }

    /// The name of the first folder with the identifier.
    pub fn folder_name(&self, folder_id: Option<Uuid>) -> (r: Option<&str>)
        ensures
            optional_text(r) == folder_name_of(self@, folder_id),
    {
        let wanted = match folder_id {
            Some(wanted) => wanted,
            None => {
                return None;
            },
        };
        let ghost p = folder_has_id(wanted);
        let mut i: usize = 0;
        while i < self.folders.len()
            invariant
                folder_id == Some(wanted),
                p == folder_has_id(wanted),
                i <= self.folders@.len(),
                forall|j: int| 0 <= j < i ==> !p(#[trigger] self@.folders[j]),
            decreases self.folders@.len() - i,
        {
            if ids::same_id(self.folders[i].id, wanted) {
                proof {
                    seqs::first_index_at(self@.folders, p, i as int);
                }
                return Some(self.folders[i].name.as_str());
            }
            i = i + 1;
        }
        proof {
            seqs::first_index_none(self@.folders, p);
        }
        None
    }

    /// The identifier of the folder with the given name, which is added under an
    /// identifier of its own where there is none yet. Case does not count for ASCII
    /// letters. A name without characters stands for no folder.
    pub fn ensure_folder_named(&mut self, name: &str) -> (r: Option<Uuid>)
        ensures
            exists|fresh: Uuid|
                #![trigger with_folder_named(old(self)@, name@, fresh)]
                (final(self)@, r) == with_folder_named(old(self)@, name@, fresh),
    {
        let fresh = ids::new_id();
        let r = self.ensure_folder(name, fresh);
        assert((self@, r) == with_folder_named(old(self)@, name@, fresh));
        r
    }

    /// `ensure_folder_named` with the identifier that a new folder gets.
    pub fn ensure_folder(&mut self, name: &str, fresh: Uuid) -> (r: Option<Uuid>)
        ensures
            (final(self)@, r) == with_folder_named(old(self)@, name@, fresh),
    {
        let name_trimmed = text::trim(name);
        if name_trimmed.unicode_len() == 0 {
            return None;
        }
        let ghost given = self@;
        let ghost p = folder_is_named(text::trimmed(name@));
        let mut i: usize = 0;
        while i < self.folders.len()
            invariant
                self@ == given,
                given == old(self)@,
                name_trimmed@ == text::trimmed(name@),
                name_trimmed@.len() > 0,
                p == folder_is_named(text::trimmed(name@)),
                i <= self.folders@.len(),
                forall|j: int| 0 <= j < i ==> !p(#[trigger] given.folders[j]),
            decreases self.folders@.len() - i,
        {
            if text::eq_ignore_ascii_case(self.folders[i].name.as_str(), name_trimmed) {
                assert(p(given.folders[i as int]));
                proof {
                    seqs::first_index_at(given.folders, p, i as int);
                }
                return Some(self.folders[i].id);
            }
            assert(!p(given.folders[i as int]));
            i = i + 1;
        }
        proof {
            seqs::first_index_none(given.folders, p);
        }
        let ghost before = self.folders@;
        self.folders.push(ConnectionFolder { id: fresh, name: name_trimmed.to_owned() });
        assert(folder_views(self.folders@) =~= folder_views(before).push(
            FolderView { id: fresh, name: text::trimmed(name@) },
        ));
        self.folders = sort_folders(&self.folders);
        Some(fresh)
    }

    /// The place of the first connection with the identifier.
    fn position(&self, id: Uuid) -> (r: Option<usize>)
        ensures
            match r {
                Some(i) => i < self.connections@.len() && seqs::first_index(
                    self@.connections,
                    profile_has_id(id),
                ) == Some(i as int),
                None => seqs::first_index(self@.connections, profile_has_id(id)) is None,
            },
    {
        let ghost p = profile_has_id(id);
        let mut i: usize = 0;
        while i < self.connections.len()
            invariant
                p == profile_has_id(id),
                i <= self.connections@.len(),
                forall|j: int| 0 <= j < i ==> !p(#[trigger] self@.connections[j]),
            decreases self.connections@.len() - i,
        {
            if ids::same_id(self.connections[i].id, id) {
                proof {
                    seqs::first_index_at(self@.connections, p, i as int);
                }
                return Some(i);
            }
            i = i + 1;
        }
        proof {
            seqs::first_index_none(self@.connections, p);
        }
        None
    }

    /// The first connection with the identifier.
    pub fn connection(&self, id: Uuid) -> (r: Option<&ConnectionProfile>)
        ensures
            optional_profile(r) == connection_of(self@, id),
    {
        match self.position(id) {
            Some(i) => Some(&self.connections[i]),
            None => None,
        }
    }

    /// Puts the profile in the place of the first connection with its identifier, or
    /// adds it, and normalizes the store.
    pub fn upsert(&mut self, profile: ConnectionProfile)
        ensures
            final(self)@ == upserted(old(self)@, profile@),
    {
        let mut profile = profile;
        profile.normalize();
        let ghost before = self@;
        match self.position(profile.id) {
            Some(i) => {
                let ghost normal = profile@;
                self.connections.set(i, profile);
                assert(profile_views(self.connections@) =~= before.connections.update(
                    i as int,
                    normal,
                ));
            },
            None => {
                let ghost normal = profile@;
                self.connections.push(profile);
                assert(profile_views(self.connections@) =~= before.connections.push(normal));
            },
        }
        self.normalize();
    }

    /// Takes the first connection with the identifier out and drops folders that are
    /// unused then.
    pub fn remove(&mut self, id: Uuid) -> (r: Option<ConnectionProfile>)
        ensures
            match r {
                Some(p) => connection_of(old(self)@, id) == Some(p@),
                None => connection_of(old(self)@, id) is None,
            },
            final(self)@ == removed(old(self)@, id),
    {
        let ghost before = self@;
        match self.position(id) {
            Some(i) => {
                let taken = self.connections.remove(i);
                assert(profile_views(self.connections@) =~= before.connections.remove(i as int));
                self.cleanup_unused_folders();
                Some(taken)
            },
            None => None,
        }
    }

    /// The connections sorted by folder, name and host without regard to case.
    pub fn sorted_connections(&self) -> (r: Vec<&ConnectionProfile>)
        ensures
            r@.len() == self@.connections.len(),
            forall|i: int|
                0 <= i < r@.len() ==> (#[trigger] r@[i])@ == sorted_profiles(
                    self@.folders,
                    self@.connections,
                )[i],
    {
        let order = profile_sort_order(&self.folders, &self.connections);
        let mut r: Vec<&ConnectionProfile> = Vec::new();
        let mut k: usize = 0;
        let ghost sorted = sorted_profiles(self@.folders, self@.connections);
        while k < order.len()
            invariant
                sorted == order::arranged(self@.connections, order::as_ints(order@)),
                k <= order@.len(),
                order@.len() == self.connections@.len(),
                forall|j: int|
                    0 <= j < order@.len() ==> #[trigger] order@[j] < self.connections@.len(),
                r@.len() == k,
                forall|j: int| 0 <= j < k ==> (#[trigger] r@[j])@ == sorted[j],
            decreases order@.len() - k,
        {
            r.push(&self.connections[order[k]]);
            k = k + 1;
        }
        r
    }
}

/// The file that holds the connections.
#[derive(Debug)]
pub struct ConnectionRepository {
    path: PathBuf,
}

impl ConnectionRepository {
    /// The path of the file.
    pub closed spec fn location(self) -> PathBuf {
        self.path
    }

    pub fn new(path: PathBuf) -> (r: Self)
        ensures
            r.location() == path,
    {
        Self { path }
    }

    pub fn path(&self) -> (r: &PathBuf)
        ensures
            *r == self.location(),
    {
        &self.path
    }
}

/// The port of a stored profile that names none.
pub fn default_ssh_port() -> (r: u16)
    ensures
        r == DEFAULT_SSH_PORT,
{
    DEFAULT_SSH_PORT
}

/// Whether a stored profile that does not say so accepts new hosts.
pub fn default_accept_new_host() -> (r: bool)
    ensures
        r,
{
    true
}

/// Where a profile leads: the host as it is given where there is no user but white space,
/// else the user, an at sign and the host, both without white space around them.
pub proof fn destinations_name_user_and_host(profile: &ConnectionProfile, r: String)
    requires
        call_ensures(ConnectionProfile::destination, (profile,), r),
    ensures
        ({
            let user = text::trimmed(profile.user@);
            let n = user.len() as int;
            &&& n == 0 ==> r@ == profile.host@
            &&& n > 0 ==> r@.len() == n + 1 + text::trimmed(profile.host@).len() && r@.take(n) == user
                && r@[n] == '@' && r@.skip(n + 1) == text::trimmed(profile.host@)
        }),
{
    reveal_strlit("@");
    let user = text::trimmed(profile.user@);
    let n = user.len() as int;
    if n > 0 {
        assert(r@.take(n) =~= user);
        assert(r@.skip(n + 1) =~= text::trimmed(profile.host@));
    }
}

/// The label of a host is the host, a colon and the port, which can be read back.
pub proof fn host_labels_name_host_and_port(profile: &ConnectionProfile, r: String, port: String)
    requires
        call_ensures(ConnectionProfile::host_label, (profile,), r),
        call_ensures(text::decimal_of, (profile.port as u64,), port),
    ensures
        ({
            let n = text::trimmed(profile.host@).len() as int;
            &&& r@.len() > n + 1
            &&& r@.take(n) == text::trimmed(profile.host@)
            &&& r@[n] == ':'
            &&& r@.skip(n + 1) == port@
            &&& text::number_of(r@.skip(n + 1)) == profile.port
        }),
{
    reveal_strlit(":");
    text::numerals_read_back(profile.port as u64, port);
    let host = text::trimmed(profile.host@);
    let n = host.len() as int;
    assert(r@.take(n) =~= host);
    assert(r@.skip(n + 1) =~= port@);
}

/// Normalizing takes the white space around every text of a profile and gives it the usual
/// port where it has none. Everything else is kept.
pub proof fn normalizing_trims_every_text(profile: &mut ConnectionProfile)
    requires
        call_ensures(ConnectionProfile::normalize, (profile,), ()),
    ensures
        final(profile).name@ == text::trimmed(old(profile).name@),
        final(profile).host@ == text::trimmed(old(profile).host@),
        final(profile).user@ == text::trimmed(old(profile).user@),
        final(profile).password@ == text::trimmed(old(profile).password@),
        final(profile).identity_file@ == text::trimmed(old(profile).identity_file@),
        final(profile).remote_command@ == text::trimmed(old(profile).remote_command@),
        final(profile).note@ == text::trimmed(old(profile).note@),
        old(profile).port != 0 ==> final(profile).port == old(profile).port,
        old(profile).port == 0 ==> final(profile).port == 22,
        final(profile).id == old(profile).id,
        final(profile).folder_id == old(profile).folder_id,
        final(profile).backend == old(profile).backend,
        final(profile).accept_new_host == old(profile).accept_new_host,
        final(profile).terminal@ == old(profile).terminal@,
{
}

/// A new profile has its name and host, the usual port and backend, accepts new hosts and
/// sets nothing else.
pub proof fn new_profiles_set_name_and_host(id: Uuid, name: &str, host: &str, r: ConnectionProfile)
    requires
        call_ensures(ConnectionProfile::with_id, (id, name, host), r),
    ensures
        r.id == id,
        r.name@ == name@,
        r.host@ == host@,
        r.folder_id is None,
        r.port == 22,
        r.user@.len() == 0 && r.password@.len() == 0 && r.identity_file@.len() == 0,
        r.remote_command@.len() == 0 && r.note@.len() == 0,
        r.backend == ConnectionBackend::SystemOpenSsh,
        r.accept_new_host,
        r.terminal.initial_cols is None && r.terminal.color_scheme is None,
{
}

/// The name of a folder is that of the first folder with the identifier; there is one if
/// and only if some folder has it.
pub proof fn folders_are_found_by_identifier(
    store: &ConnectionStore,
    id: Option<Uuid>,
    r: Option<&str>,
)
    requires
        call_ensures(ConnectionStore::folder_name, (store, id), r),
    ensures
        match r {
            Some(name) => id is Some && exists|i: int|
                0 <= i < store.folders@.len() && (#[trigger] store.folders@[i]).id == id->0
                    && store.folders@[i].name@ == name@ && forall|j: int|
                    0 <= j < i ==> (#[trigger] store.folders@[j]).id != id->0,
            None => id is None || forall|i: int|
                0 <= i < store.folders@.len() ==> (#[trigger] store.folders@[i]).id != id->0,
        },
{
    if let Some(wanted) = id {
        let p = folder_has_id(wanted);
        seqs::first_index_found(store@.folders, p);
        match seqs::first_index(store@.folders, p) {
            Some(i) => {
                assert(p(store@.folders[i]));
                assert(store.folders@[i].id == wanted);
                assert forall|j: int| 0 <= j < i implies (#[trigger] store.folders@[j]).id
                    != wanted by {
                    assert(!p(store@.folders[j]));
                }
            },
            None => {
                assert forall|j: int| 0 <= j < store.folders@.len() implies (
                #[trigger] store.folders@[j]).id != wanted by {
                    assert(!p(store@.folders[j]));
                }
            },
        }
    }
}

/// A connection is found by its identifier: the first that has it; there is one if and only
/// if some connection has it.
pub proof fn connections_are_found_by_identifier(
    store: &ConnectionStore,
    id: Uuid,
    r: Option<&ConnectionProfile>,
)
    requires
        call_ensures(ConnectionStore::connection, (store, id), r),
    ensures
        match r {
            Some(p) => exists|i: int|
                0 <= i < store.connections@.len() && (#[trigger] store.connections@[i]).id == id
                    && store.connections@[i]@ == p@ && forall|j: int|
                    0 <= j < i ==> (#[trigger] store.connections@[j]).id != id,
            None => forall|i: int|
                0 <= i < store.connections@.len() ==> (#[trigger] store.connections@[i]).id != id,
        },
{
    first_with_id(store, id);
}

proof fn first_with_id(store: &ConnectionStore, id: Uuid)
    ensures
        match seqs::first_index(store@.connections, profile_has_id(id)) {
            Some(i) => 0 <= i < store.connections@.len() && store.connections@[i].id == id
                && forall|j: int| 0 <= j < i ==> (#[trigger] store.connections@[j]).id != id,
            None => forall|i: int|
                0 <= i < store.connections@.len() ==> (#[trigger] store.connections@[i]).id != id,
        },
{
    let p = profile_has_id(id);
    seqs::first_index_found(store@.connections, p);
    match seqs::first_index(store@.connections, p) {
        Some(i) => {
            assert(p(store@.connections[i]));
            assert forall|j: int| 0 <= j < i implies (#[trigger] store.connections@[j]).id != id by {
                assert(!p(store@.connections[j]));
            }
        },
        None => {
            assert forall|j: int| 0 <= j < store.connections@.len() implies (
            #[trigger] store.connections@[j]).id != id by {
                assert(!p(store@.connections[j]));
            }
        },
    }
}

/// Removing takes out the first connection with the identifier, and gives it; the others
/// keep their order. A folder stays if and only if a connection lies in it. Without such a
/// connection nothing changes.
pub proof fn one_connection_is_removed(
    store: &mut ConnectionStore,
    id: Uuid,
    r: Option<ConnectionProfile>,
)
    requires
        call_ensures(ConnectionStore::remove, (store, id), r),
    ensures
        match r {
            Some(p) => exists|i: int|
                {
                    &&& 0 <= i < old(store)@.connections.len()
                    &&& old(store)@.connections[i] == p@ && p.id == id
                    &&& #[trigger] old(store)@.connections.remove(i) == final(store)@.connections
                    &&& forall|j: int|
                        0 <= j < i ==> (#[trigger] old(store)@.connections[j]).id != id
                },
            None => final(store)@ == old(store)@ && forall|j: int|
                0 <= j < old(store)@.connections.len() ==> (
                #[trigger] old(store)@.connections[j]).id != id,
        },
        r is Some ==> forall|f: FolderView| #[trigger]
            final(store)@.folders.contains(f) <==> old(store)@.folders.contains(f) && exists|k: int|
                0 <= k < final(store)@.connections.len() && (
                #[trigger] final(store)@.connections[k]).folder_id == Some(f.id),
{
    let before = old(store)@;
    let matching = profile_has_id(id);
    seqs::first_index_found(before.connections, matching);
    match seqs::first_index(before.connections, matching) {
        Some(i) => {
            assert(matching(before.connections[i]));
            let rest = before.connections.remove(i);
            assert(final(store)@.connections == rest);
            assert forall|j: int| 0 <= j < i implies (#[trigger] before.connections[j]).id != id by {
                assert(!matching(before.connections[j]));
            }
            seqs::filter_members(before.folders, is_used(rest));
            assert forall|f: FolderView| #[trigger]
                final(store)@.folders.contains(f) <==> before.folders.contains(f) && exists|k: int|
                    0 <= k < rest.len() && (#[trigger] rest[k]).folder_id == Some(f.id) by {
                assert(is_used(rest)(f) == holds_some(rest, f));
                if holds_some(rest, f) {
                    let k = choose|k: int|
                        0 <= k < rest.len() && #[trigger] rest[k].folder_id == Some(f.id);
                    assert(rest[k].folder_id == Some(f.id));
                }
                if exists|k: int| 0 <= k < rest.len() && (#[trigger] rest[k]).folder_id == Some(f.id) {
                    let k = choose|k: int|
                        0 <= k < rest.len() && (#[trigger] rest[k]).folder_id == Some(f.id);
                    assert(rest[k].folder_id == Some(f.id));
                }
            }
        },
        None => {
            assert forall|j: int| 0 <= j < before.connections.len() implies (
            #[trigger] before.connections[j]).id != id by {
                assert(!matching(before.connections[j]));
            }
        },
    }
}

/// Cleaning up keeps a folder if and only if a connection lies in it, and keeps the order
/// of the folders and all connections.
pub proof fn used_folders_are_kept(store: &mut ConnectionStore, f: FolderView, i: int, j: int)
    requires
        call_ensures(ConnectionStore::cleanup_unused_folders, (store,), ()),
    ensures
        final(store)@.connections == old(store)@.connections,
        final(store)@.folders.contains(f) <==> old(store)@.folders.contains(f) && exists|k: int|
            0 <= k < old(store)@.connections.len() && (#[trigger] old(store)@.connections[k]).folder_id
                == Some(f.id),
        0 <= i < j < final(store)@.folders.len() ==> exists|a: int, b: int|
            0 <= a < b < old(store)@.folders.len() && #[trigger] old(store)@.folders[a]
                == final(store)@.folders[i] && #[trigger] old(store)@.folders[b]
                == final(store)@.folders[j],
{
    let before = old(store)@;
    let p = is_used(before.connections);
    seqs::filter_members(before.folders, p);
    assert(p(f) == holds_some(before.connections, f));
    if holds_some(before.connections, f) {
        let k = choose|k: int|
            0 <= k < before.connections.len() && #[trigger] before.connections[k].folder_id == Some(
                f.id,
            );
        assert(before.connections[k].folder_id == Some(f.id));
    }
    if exists|k: int|
        0 <= k < before.connections.len() && (#[trigger] before.connections[k]).folder_id == Some(
            f.id,
        ) {
        let k = choose|k: int|
            0 <= k < before.connections.len() && (#[trigger] before.connections[k]).folder_id == Some(
                f.id,
            );
        assert(before.connections[k].folder_id == Some(f.id));
    }
    if 0 <= i < j < final(store)@.folders.len() {
        let places = seqs::filter_keeps_order(before.folders, p, i, j);
        assert(before.folders[places.0] == final(store)@.folders[i]);
        assert(before.folders[places.1] == final(store)@.folders[j]);
    }
}

/// Asking for a folder gives one that is in the store under the name, up to the case of
/// ASCII letters and the white space around it: the first that is there, or else a new one with
/// that name. All other folders and all connections stay. A blank name gives none.
pub proof fn folders_are_there_when_asked_for(
    store: &mut ConnectionStore,
    name: &str,
    fresh: Uuid,
    r: Option<Uuid>,
)
    requires
        call_ensures(ConnectionStore::ensure_folder, (store, name, fresh), r),
    ensures
        final(store)@.connections == old(store)@.connections,
        ({
            let wanted = text::trimmed(name@);
            let is_wanted = |f: FolderView| text::same_ignoring_ascii_case(f.name, wanted);
            let known = exists|i: int|
                0 <= i < old(store)@.folders.len() && is_wanted(#[trigger] old(store)@.folders[i]);
            &&& wanted.len() == 0 ==> r is None && final(store)@ == old(store)@
            &&& wanted.len() > 0 && known ==> final(store)@ == old(store)@ && exists|i: int|
                0 <= i < old(store)@.folders.len() && is_wanted(#[trigger] old(store)@.folders[i])
                    && r == Some(old(store)@.folders[i].id) && forall|j: int|
                    0 <= j < i ==> !is_wanted(#[trigger] old(store)@.folders[j])
            &&& wanted.len() > 0 && !known ==> r == Some(fresh) && final(store)@.folders.len()
                == old(store)@.folders.len() + 1 && forall|f: FolderView| #[trigger]
                final(store)@.folders.contains(f) <==> old(store)@.folders.contains(f) || f == (
                FolderView { id: fresh, name: wanted })
        }),
{
    let before = old(store)@;
    let wanted = text::trimmed(name@);
    let p = folder_is_named(wanted);
    if wanted.len() > 0 {
        seqs::first_index_found(before.folders, p);
        match seqs::first_index(before.folders, p) {
            Some(i) => {
                assert(p(before.folders[i]));
                assert(text::same_ignoring_ascii_case(before.folders[i].name, wanted));
                assert forall|j: int| 0 <= j < i implies !text::same_ignoring_ascii_case(
                    (#[trigger] before.folders[j]).name,
                    wanted,
                ) by {
                    assert(!p(before.folders[j]));
                }
            },
            None => {
                let added = FolderView { id: fresh, name: wanted };
                let more = before.folders.push(added);
                seqs::arranged_members(more, folder_keys(more));
                assert forall|i: int| 0 <= i < before.folders.len() implies
                    !text::same_ignoring_ascii_case((#[trigger] before.folders[i]).name, wanted) by {
                    assert(!p(before.folders[i]));
                }
                assert forall|f: FolderView| more.contains(f) <==> before.folders.contains(f) || f
                    == added by {
                    if more.contains(f) {
                        let k = more.index_of(f);
                        if k < before.folders.len() {
                            assert(before.folders[k] == f);
                        }
                    }
                    if before.folders.contains(f) {
                        let k = before.folders.index_of(f);
                        assert(more[k] == f);
                    }
                    assert(more[before.folders.len() as int] == added);
                }
                assert forall|f: FolderView| #[trigger]
                    final(store)@.folders.contains(f) <==> before.folders.contains(f) || f
                        == added by {
                    assert(more.contains(f) <==> before.folders.contains(f) || f == added);
                }
            },
        }
    }
}

} // verus!
