//! The draft of a connection in the editor.

use uuid::Uuid;
use vstd::prelude::*;
use crate::config;
use crate::config::TerminalSettings;
use crate::connection::{
    ConnectionBackend, ConnectionProfile, ConnectionStore, ProfileView, StoreView,
};
use crate::connection;
use crate::ids;
use crate::seqs;
use crate::store_laws;
use crate::text;

verus! {

/// A connection as it is being edited. The folder is given by its name.
#[derive(Debug)]
pub struct ConnectionDraft {
    pub id: Option<Uuid>,
    pub name: String,
    pub folder: String,
    pub host: String,
    pub port: u16,
    pub user: String,
    pub password: String,
    pub identity_file: String,
    pub remote_command: String,
    pub note: String,
    pub backend: ConnectionBackend,
    pub accept_new_host: bool,
    pub terminal: TerminalSettings,
}

/// `ConnectionDraft` with its texts as sequences of characters.
#[verifier::ext_equal]
pub struct DraftView {
    pub id: Option<Uuid>,
    pub name: Seq<char>,
    pub folder: Seq<char>,
    pub host: Seq<char>,
    pub port: u16,
    pub user: Seq<char>,
    pub password: Seq<char>,
    pub identity_file: Seq<char>,
    pub remote_command: Seq<char>,
    pub note: Seq<char>,
    pub backend: ConnectionBackend,
    pub accept_new_host: bool,
    pub terminal: config::TerminalSettingsView,
}

impl View for ConnectionDraft {
    type V = DraftView;

    open spec fn view(&self) -> DraftView {
        DraftView {
            id: self.id,
            name: self.name@,
            folder: self.folder@,
            host: self.host@,
            port: self.port,
            user: self.user@,
            password: self.password@,
            identity_file: self.identity_file@,
            remote_command: self.remote_command@,
            note: self.note@,
            backend: self.backend,
            accept_new_host: self.accept_new_host,
            terminal: self.terminal@,
        }
    }
}

impl Clone for ConnectionDraft {
    fn clone(&self) -> (r: Self)
        ensures
            r == *self,
    {
        ConnectionDraft {
            id: self.id,
            name: self.name.clone(),
            folder: self.folder.clone(),
            host: self.host.clone(),
            port: self.port,
            user: self.user.clone(),
            password: self.password.clone(),
            identity_file: self.identity_file.clone(),
            remote_command: self.remote_command.clone(),
            note: self.note.clone(),
            backend: self.backend,
            accept_new_host: self.accept_new_host,
            terminal: self.terminal.clone(),
        }
    }
}

/// The draft of a new connection.
pub open spec fn empty_draft() -> DraftView {
    DraftView {
        id: None,
        name: Seq::empty(),
        folder: Seq::empty(),
        host: Seq::empty(),
        port: 22,
        user: Seq::empty(),
        password: Seq::empty(),
        identity_file: Seq::empty(),
        remote_command: Seq::empty(),
        note: Seq::empty(),
        backend: ConnectionBackend::SystemOpenSsh,
        accept_new_host: true,
        terminal: config::unset_settings(),
    }
}

/// The draft in which a connection of a store is edited.
pub open spec fn draft_of(s: StoreView, p: ProfileView) -> DraftView {
    DraftView {
        id: Some(p.id),
        name: p.name,
        folder: match connection::folder_name_of(s, p.folder_id) {
            Some(name) => name,
            None => Seq::empty(),
        },
        host: p.host,
        port: p.port,
        user: p.user,
        password: p.password,
        identity_file: p.identity_file,
        remote_command: p.remote_command,
        note: p.note,
        backend: p.backend,
        accept_new_host: p.accept_new_host,
        terminal: p.terminal,
    }
}

/// The connection that a draft stands for, in the given folder; `fresh` is its
/// identifier where the draft is of a new one.
pub open spec fn drafted_profile(d: DraftView, folder_id: Option<Uuid>, fresh: Uuid) -> ProfileView {
    ProfileView {
        id: match d.id {
            Some(id) => id,
            None => fresh,
        },
        name: if text::trimmed(d.name).len() == 0 {
            "New connection"@
        } else {
            text::trimmed(d.name)
        },
        folder_id,
        host: text::trimmed(d.host),
        port: d.port,
        user: d.user,
        password: d.password,
        identity_file: d.identity_file,
        remote_command: d.remote_command,
        note: d.note,
        backend: d.backend,
        accept_new_host: d.accept_new_host,
        terminal: d.terminal,
    }
}

/// The connection that a draft stands for, and the store with its folder in it.
pub open spec fn drafted(d: DraftView, s: StoreView, folder: Uuid, fresh: Uuid) -> (
    StoreView,
    ProfileView,
) {
    let (t, folder_id) = connection::with_folder_named(s, d.folder, folder);
    (t, drafted_profile(d, folder_id, fresh))
}

impl ConnectionDraft {
    /// The draft in which a connection of a store is edited.
    pub fn from_profile(store: &ConnectionStore, profile: &ConnectionProfile) -> (r: Self)
        ensures
            r@ == draft_of(store@, profile@),
    {
        let folder = match store.folder_name(profile.folder_id) {
            Some(name) => name.to_owned(),
            None => String::new(),
        };
        ConnectionDraft {
            id: Some(profile.id),
            name: profile.name.clone(),
            folder,
            host: profile.host.clone(),
            port: profile.port,
            user: profile.user.clone(),
            password: profile.password.clone(),
            identity_file: profile.identity_file.clone(),
            remote_command: profile.remote_command.clone(),
            note: profile.note.clone(),
            backend: profile.backend,
            accept_new_host: profile.accept_new_host,
            terminal: profile.terminal.clone(),
        }
    }

    /// The draft of a new connection.
    pub fn empty() -> (r: Self)
        ensures
            r@ == empty_draft(),
    {
        ConnectionDraft {
            id: None,
            name: String::new(),
            folder: String::new(),
            host: String::new(),
            port: 22,
            user: String::new(),
            password: String::new(),
            identity_file: String::new(),
            remote_command: String::new(),
            note: String::new(),
            backend: ConnectionBackend::SystemOpenSsh,
            accept_new_host: true,
            terminal: TerminalSettings::default(),
        }
    }

    /// The connection that the draft stands for. Its folder is added to the store where
    /// there is none of that name. A new folder and a new connection get identifiers of
    /// their own.
    pub fn into_profile(self, store: &mut ConnectionStore) -> (r: ConnectionProfile)
        ensures
            exists|folder: Uuid, fresh: Uuid|
                (final(store)@, r@) == #[trigger] drafted(self@, old(store)@, folder, fresh),
    {
        let folder = ids::new_id();
        let fresh = ids::new_id();
        let r = self.into_profile_with(store, folder, fresh);
        assert((store@, r@) == drafted(self@, old(store)@, folder, fresh));
        r
    }

    /// `into_profile` with the identifiers that a new folder and a new connection get.
    pub fn into_profile_with(self, store: &mut ConnectionStore, folder: Uuid, fresh: Uuid) -> (r:
        ConnectionProfile)
        ensures
            (final(store)@, r@) == drafted(self@, old(store)@, folder, fresh),
    {
        let folder_id = store.ensure_folder(self.folder.as_str(), folder);
        let id = match self.id {
            Some(id) => id,
            None => fresh,
        };
        let name = text::trim(self.name.as_str());
        let name = if name.unicode_len() == 0 {
            "New connection".to_owned()
        } else {
            name.to_owned()
        };
        let host = text::trim(self.host.as_str()).to_owned();
        ConnectionProfile {
            id,
            name,
            folder_id,
            host,
            port: self.port,
            user: self.user,
            password: self.password,
            identity_file: self.identity_file,
            remote_command: self.remote_command,
            note: self.note,
            backend: self.backend,
            accept_new_host: self.accept_new_host,
            terminal: self.terminal,
        }
    }
}

/// Whether no two folders have the same name up to the case of ASCII letters.
pub open spec fn folder_names_distinct(s: StoreView) -> bool {
    forall|i: int, j: int|
        0 <= i < j < s.folders.len() ==> !text::same_ignoring_ascii_case(
            (#[trigger] s.folders[i]).name,
            (#[trigger] s.folders[j]).name,
        )
}

/// Whether folders have trimmed names and none is nameless.
pub open spec fn folder_names_trimmed(s: StoreView) -> bool {
    forall|i: int|
        0 <= i < s.folders.len() ==> (#[trigger] s.folders[i]).name.len() > 0 && text::trimmed(
            s.folders[i].name,
        ) == s.folders[i].name
}

/// Opening a connection in the editor and leaving it as it is gives that connection, and
/// no folder is added. Its name and its host have to be trimmed, with a name given, and
/// its folder there, if it is in any; the names of the folders have to be trimmed, not
/// empty and distinct up to the case of ASCII letters.
pub proof fn unedited_draft_is_its_connection(
    s: StoreView,
    p: ProfileView,
    folder: Uuid,
    fresh: Uuid,
)
    requires
        folder_names_trimmed(s),
        folder_names_distinct(s),
        p.name.len() > 0,
        text::trimmed(p.name) == p.name,
        text::trimmed(p.host) == p.host,
        p.folder_id is Some ==> connection::folder_name_of(s, p.folder_id) is Some,
    ensures
        drafted(draft_of(s, p), s, folder, fresh) == (s, p),
{
    let d = draft_of(s, p);
    match p.folder_id {
        Some(id) => {
            let by_id = connection::folder_has_id(id);
            seqs::first_index_found(s.folders, by_id);
            let i = seqs::first_index(s.folders, by_id)->0;
            let f = s.folders[i];
            assert(by_id(f));
            assert(d.folder == f.name);
            assert(text::trimmed(f.name) == f.name);
            let named = connection::folder_is_named(f.name);
            assert(named(f));
            assert forall|j: int| 0 <= j < i implies !named(#[trigger] s.folders[j]) by {
                assert(!text::same_ignoring_ascii_case(s.folders[j].name, s.folders[i].name));
            }
            seqs::first_index_at(s.folders, named, i);
        },
        None => {
            assert(text::trimmed(d.folder).len() == 0);
        },
    }
    assert(drafted(d, s, folder, fresh).1 =~= p);
}

/// Opening a connection in the editor and saving it as it is changes nothing: neither
/// the connection nor the store. The store has to be tidy, with distinct identifiers
/// and folder names, and the connection one of it, with a name and in a folder that is
/// there, if in any.
pub proof fn saving_unedited_changes_nothing(
    s: StoreView,
    p: ProfileView,
    folder: Uuid,
    fresh: Uuid,
)
    requires
        store_laws::is_tidy(s),
        store_laws::ids_distinct(s.connections),
        folder_names_distinct(s),
        s.connections.contains(p),
        p.name.len() > 0,
        p.folder_id is Some ==> connection::folder_name_of(s, p.folder_id) is Some,
    ensures
        drafted(draft_of(s, p), s, folder, fresh) == (s, p),
        connection::upserted(s, p) == s,
{
    let k = s.connections.index_of(p);
    assert(connection::normalized_profile(s.connections[k]) == p);
    unedited_draft_is_its_connection(s, p, folder, fresh);
    assert forall|j: int| 0 <= j < k implies !connection::profile_has_id(p.id)(
        #[trigger] s.connections[j],
    ) by {
        assert(s.connections[j].id != s.connections[k].id);
    }
    seqs::first_index_at(s.connections, connection::profile_has_id(p.id), k);
    assert(connection::replaced(s.connections, p) =~= s.connections);
    store_laws::tidy_is_unchanged(s);
}

/// The editor shows a connection field by field, with the name of its folder, or none.
pub proof fn drafts_show_every_field(
    store: &ConnectionStore,
    profile: &ConnectionProfile,
    r: ConnectionDraft,
    folder: Option<&str>,
)
    requires
        call_ensures(ConnectionDraft::from_profile, (store, profile), r),
        call_ensures(ConnectionStore::folder_name, (store, profile.folder_id), folder),
    ensures
        r.id == Some(profile.id),
        r.name@ == profile.name@,
        folder matches Some(name) ==> r.folder@ == name@,
        folder is None ==> r.folder@.len() == 0,
        r.host@ == profile.host@,
        r.port == profile.port,
        r.user@ == profile.user@,
        r.password@ == profile.password@,
        r.identity_file@ == profile.identity_file@,
        r.remote_command@ == profile.remote_command@,
        r.note@ == profile.note@,
        r.backend == profile.backend,
        r.accept_new_host == profile.accept_new_host,
        r.terminal@ == profile.terminal@,
{
}

/// A draft becomes a connection field by field: one of its own identifier, or a new one; in
/// the folder of that name, which is there afterwards; with name and host trimmed, and a
/// name in any case.
pub proof fn drafts_become_connections(
    draft: ConnectionDraft,
    store: &mut ConnectionStore,
    folder: Uuid,
    fresh: Uuid,
    r: ConnectionProfile,
)
    requires
        call_ensures(ConnectionDraft::into_profile_with, (draft, store, folder, fresh), r),
    ensures
        draft.id matches Some(id) ==> r.id == id,
        draft.id is None ==> r.id == fresh,
        text::trimmed(draft.name@).len() > 0 ==> r.name@ == text::trimmed(draft.name@),
        text::trimmed(draft.name@).len() == 0 ==> r.name@ == "New connection"@,
        r.host@ == text::trimmed(draft.host@),
        r.port == draft.port,
        r.user@ == draft.user@,
        r.password@ == draft.password@,
        r.identity_file@ == draft.identity_file@,
        r.remote_command@ == draft.remote_command@,
        r.note@ == draft.note@,
        r.backend == draft.backend,
        r.accept_new_host == draft.accept_new_host,
        r.terminal@ == draft.terminal@,
        r.folder_id is None <==> text::trimmed(draft.folder@).len() == 0,
        r.folder_id matches Some(id) ==> exists|i: int|
            0 <= i < final(store)@.folders.len() && (#[trigger] final(store)@.folders[i]).id == id
                && text::same_ignoring_ascii_case(
                final(store)@.folders[i].name,
                text::trimmed(draft.folder@),
            ),
        final(store)@.connections == old(store)@.connections,
{
    let before = old(store)@;
    let wanted = text::trimmed(draft.folder@);
    let named = connection::folder_is_named(wanted);
    if wanted.len() > 0 {
        seqs::first_index_found(before.folders, named);
        match seqs::first_index(before.folders, named) {
            Some(i) => {
                assert(named(before.folders[i]));
                assert(final(store)@.folders[i].id == r.folder_id->0);
            },
            None => {
                let added = connection::FolderView { id: folder, name: wanted };
                let more = before.folders.push(added);
                seqs::arranged_members(more, connection::folder_keys(more));
                assert(more[before.folders.len() as int] == added);
                assert(more.contains(added));
                let t = final(store)@;
                assert(t.folders.contains(added));
                let k = t.folders.index_of(added);
                assert(t.folders[k].id == folder);
                assert(text::same_ignoring_ascii_case(t.folders[k].name, wanted));
            },
        }
    }
}

/// The draft of a new connection is empty but for the usual port and backend, and accepts
/// new hosts.
pub proof fn new_drafts_are_empty(r: ConnectionDraft)
    requires
        call_ensures(ConnectionDraft::empty, (), r),
    ensures
        r.id is None,
        r.name@.len() == 0 && r.folder@.len() == 0 && r.host@.len() == 0 && r.user@.len() == 0,
        r.password@.len() == 0 && r.identity_file@.len() == 0 && r.remote_command@.len() == 0,
        r.note@.len() == 0,
        r.port == 22,
        r.backend == ConnectionBackend::SystemOpenSsh,
        r.accept_new_host,
        r.terminal@ == config::unset_settings(),
{
}

} // verus!
