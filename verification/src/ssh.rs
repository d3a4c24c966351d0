//! The command lines and options that connections are made with.

use portable_pty::CommandBuilder;
use vstd::prelude::*;
use wezterm_ssh::Config;
use crate::connection::{ConnectionBackend, ConnectionProfile, ProfileView, DEFAULT_SSH_PORT};
use crate::command;
use crate::connection;
use crate::text;

verus! {

/// `part` where `present`, else nothing.
pub open spec fn where_given(present: bool, part: Seq<Seq<char>>) -> Seq<Seq<char>> {
    if present {
        part
    } else {
        Seq::empty()
    }
}

/// The arguments of the ssh program for a profile: port, identity file, acceptance of
/// new hosts, destination and remote command, each where it is given.
pub open spec fn ssh_args(p: ProfileView) -> Seq<Seq<char>> {
    where_given(p.port != DEFAULT_SSH_PORT, seq!["-p"@, text::decimal(p.port as nat)])
        + where_given(
        text::trimmed(p.identity_file).len() > 0,
        seq!["-i"@, text::trimmed(p.identity_file)],
    ) + where_given(p.accept_new_host, seq!["-o"@, "StrictHostKeyChecking=accept-new"@])
        + seq![connection::destination_of(p)] + where_given(
        text::trimmed(p.remote_command).len() > 0,
        seq![text::trimmed(p.remote_command)],
    )
}

/// The ssh command for a profile.
pub fn build_system_command(profile: &ConnectionProfile) -> (command: CommandBuilder)
    ensures
        command::command_line(command) == seq!["ssh"@] + ssh_args(profile@),
        command::command_dir(command) is None,
        command::command_vars(command) == command::nothing_set(),
{
    let mut command = command::new_command("ssh");
    command::add_args(&mut command, system_command_args(profile));
    command
}

/// The arguments of the ssh program for a profile.
pub fn system_command_args(profile: &ConnectionProfile) -> (args: Vec<String>)
    ensures
        args.deep_view() == ssh_args(profile@),
{
    let ghost p = profile@;
    let mut args: Vec<String> = Vec::new();
    if profile.port != DEFAULT_SSH_PORT {
        args.push("-p".to_owned());
        args.push(text::decimal_of(profile.port as u64));
    }
    let ghost port = where_given(
        p.port != DEFAULT_SSH_PORT,
        seq!["-p"@, text::decimal(p.port as nat)],
    );
    assert(args.deep_view() =~= port);
    let identity = text::trim(profile.identity_file.as_str());
    if identity.unicode_len() > 0 {
        args.push("-i".to_owned());
        args.push(identity.to_owned());
    }
    let ghost identity_part = where_given(
        text::trimmed(p.identity_file).len() > 0,
        seq!["-i"@, text::trimmed(p.identity_file)],
    );
    assert(args.deep_view() =~= port + identity_part);
    if profile.accept_new_host {
        args.push("-o".to_owned());
        args.push("StrictHostKeyChecking=accept-new".to_owned());
    }
    let ghost accept = where_given(
        p.accept_new_host,
        seq!["-o"@, "StrictHostKeyChecking=accept-new"@],
    );
    assert(args.deep_view() =~= port + identity_part + accept);
    args.push(profile.destination());
    assert(args.deep_view() =~= port + identity_part + accept + seq![
        connection::destination_of(p),
    ]);
    let command = text::trim(profile.remote_command.as_str());
    if command.unicode_len() > 0 {
        args.push(command.to_owned());
    }
    assert(args.deep_view() =~= ssh_args(p));
    args
}

/// The text shown for a backend.
pub fn backend_caption(backend: ConnectionBackend) -> (r: &'static str)
    ensures
        r@ == backend.caption(),
{
    backend.label()
}

/// `wezterm_ssh::Config`, the options for a connection and the configuration files
/// that complete them.
#[verifier::external_type_specification]
#[verifier::external_body]
pub struct ExConfig(wezterm_ssh::Config);

/// The options that were set on a `Config`, by their keys.
pub uninterp spec fn config_options(config: Config) -> Map<Seq<char>, Seq<char>>;

/// The tokens whose expansions were assigned to a `Config`, by their names.
pub uninterp spec fn config_tokens(config: Config) -> Map<Seq<char>, Seq<char>>;

/// Whether a text is made of lower case ASCII letters.
pub open spec fn is_lower_word(s: Seq<char>) -> bool {
    forall|i: int| 0 <= i < s.len() ==> 'a' <= #[trigger] s[i] <= 'z'
}

/// `Config::set_option`: the option is set, in place of an earlier value. The key is
/// stored in lower case, so one in lower case is stored as it is.
#[verifier::external_body]
fn set_option(config: &mut Config, key: &str, value: &str)
    requires
        is_lower_word(key@),
    ensures
        config_options(*final(config)) == config_options(*old(config)).insert(key@, value@),
        config_tokens(*final(config)) == config_tokens(*old(config)),
{
    config.set_option(key, value)
}

/// The value that the first entry with the key has.
pub open spec fn value_of(entries: Seq<(String, String)>, key: Seq<char>) -> Option<Seq<char>>
    decreases entries.len(),
{
    if entries.len() == 0 {
        None
    } else if entries[0].0@ == key {
        Some(entries[0].1@)
    } else {
        value_of(entries.drop_first(), key)
    }
}

/// `s` with every `%%`, from left to right, replaced by `%`.
pub open spec fn unescaped(s: Seq<char>) -> Seq<char>
    decreases s.len(),
{
    if s.len() == 0 {
        s
    } else if s.len() >= 2 && s[0] == '%' && s[1] == '%' {
        seq!['%'] + unescaped(s.skip(2))
    } else {
        seq![s[0]] + unescaped(s.skip(1))
    }
}

/// Whether `a` with `b` right behind it occurs in a text.
pub open spec fn holds_pair(s: Seq<char>, a: char, b: char) -> bool {
    exists|i: int| 0 <= i < s.len() - 1 && #[trigger] s[i] == a && s[i + 1] == b
}

/// Whether what a path becomes rests on the machine: it names the home directory, the
/// local user or an environment variable.
pub open spec fn names_surroundings(path: Seq<char>) -> bool {
    holds_pair(path, '%', 'd') || holds_pair(path, '%', 'u') || holds_pair(path, '$', '{')
}

/// Whether a path begins at the home directory.
pub open spec fn is_from_home(path: Seq<char>) -> bool {
    path.len() >= 2 && path[0] == '~' && path[1] == '/'
}

/// Whether a text holds no white space.
pub open spec fn is_one_word(s: Seq<char>) -> bool {
    forall|i: int| 0 <= i < s.len() ==> !text::is_white_space(#[trigger] s[i])
}

/// A text without its white space.
pub open spec fn compact(s: Seq<char>) -> Seq<char> {
    s.filter(|c: char| !text::is_white_space(c))
}

/// What the path of an identity file may become, where it names neither the local user
/// nor a variable. `%%` becomes `%`. At the beginning of a word `~/` may become the path
/// of the home directory, which is not said. Else a path without white space is kept,
/// and white space in a path may become other white space.
pub open spec fn expands_to(path: Seq<char>, value: Seq<char>) -> bool {
    !names_surroundings(path) ==> {
        &&& is_one_word(path) && !is_from_home(path) ==> value == unescaped(path)
        &&& is_one_word(path) && is_from_home(path) ==> unescaped(path.skip(1)).is_suffix_of(value)
        &&& !path.contains('~') ==> compact(value) == compact(unescaped(path))
        &&& is_from_home(path) && !path.skip(1).contains('~') ==> compact(
            unescaped(path.skip(1)),
        ).is_suffix_of(compact(value))
    }
}

/// `Config::for_host`, of a host that was set as the host name: the options for it. An
/// option that was set wins over the configuration files. The values of most options are
/// taken as they are: here that is said of the user, the port and the checking of host
/// keys. What is said of expansion holds where no tokens were assigned: in a host name
/// `%%` becomes `%`, and a path that was set for the identity file is expanded as far as
/// it names the home directory, the local user or environment variables. What those are
/// rests on the machine and is not said. There is always a host name, a port and a user,
/// and an identity file where one was set. What else comes depends on the configuration
/// files and on the environment and is not said.
#[verifier::external_body]
fn options_for_host(config: &Config, host: &str) -> (entries: Vec<(String, String)>)
    requires
        config_options(*config).contains_key("hostname"@),
        config_options(*config)["hostname"@] == host@,
    ensures
        forall|i: int, j: int|
            0 <= i < j < entries@.len() ==> (#[trigger] entries@[i]).0@ != (#[trigger] entries@[j]).0@,
        value_of(entries@, "hostname"@) is Some,
        value_of(entries@, "port"@) is Some,
        value_of(entries@, "user"@) is Some,
        config_tokens(*config) == command::nothing_set() ==> value_of(entries@, "hostname"@)
            == Some(unescaped(host@)),
        config_options(*config).contains_key("port"@) ==> value_of(entries@, "port"@) == Some(
            config_options(*config)["port"@],
        ),
        config_options(*config).contains_key("user"@) ==> value_of(entries@, "user"@) == Some(
            config_options(*config)["user"@],
        ),
        config_options(*config).contains_key("stricthostkeychecking"@) ==> value_of(
            entries@,
            "stricthostkeychecking"@,
        ) == Some(config_options(*config)["stricthostkeychecking"@]),
        config_options(*config).contains_key("identityfile"@) ==> value_of(
            entries@,
            "identityfile"@,
        ) is Some,
        config_options(*config).contains_key("identityfile"@) && config_tokens(*config)
            == command::nothing_set() ==> expands_to(
            config_options(*config)["identityfile"@],
            value_of(entries@, "identityfile"@)->0,
        ),
{
    config.for_host(host).into_iter().collect()
}

/// Whether the entries are an answer of `Config::for_host`, asked of the configuration
/// for the host.
pub closed spec fn is_answer(config: Config, host: Seq<char>, entries: Seq<(String, String)>) -> bool {
    exists|h: &str, e: Vec<(String, String)>| #[trigger]
        call_ensures(options_for_host, (&config, h), e) && h@ == host && e@ == entries
}

/// Options of a connection by their keys.
#[derive(Debug)]
pub struct SshConfig {
    pub entries: Vec<(String, String)>,
}

impl SshConfig {
    /// The value of an option.
    pub open spec fn value(self, key: Seq<char>) -> Option<Seq<char>> {
        value_of(self.entries@, key)
    }

    /// The value of an option.
    pub fn get(&self, key: &str) -> (r: Option<&String>)
        ensures
            match r {
                Some(v) => self.value(key@) == Some(v@),
                None => self.value(key@) is None,
            },
    {
        let mut i: usize = 0;
        assert(self.entries@.skip(0) =~= self.entries@);
        while i < self.entries.len()
            invariant
                i <= self.entries@.len(),
                self.value(key@) == value_of(self.entries@.skip(i as int), key@),
            decreases self.entries@.len() - i,
        {
            assert(self.entries@.skip(i as int).drop_first() =~= self.entries@.skip(i + 1));
            if text::same_text(self.entries[i].0.as_str(), key) {
                return Some(&self.entries[i].1);
            }
            i = i + 1;
        }
        None
    }

    /// Sets an option, in place of an earlier value.
    pub fn insert(&mut self, key: &str, value: String)
        ensures
            forall|k: Seq<char>| #[trigger]
                final(self).value(k) == (if k == key@ {
                    Some(value@)
                } else {
                    old(self).value(k)
                }),
    {
        let mut i: usize = 0;
        let ghost before = self.entries@;
        while i < self.entries.len()
            invariant
                before == self.entries@,
                self.entries@ == old(self).entries@,
                i <= self.entries@.len(),
                forall|j: int| 0 <= j < i ==> (#[trigger] before[j]).0@ != key@,
            decreases self.entries@.len() - i,
        {
            if text::same_text(self.entries[i].0.as_str(), key) {
                let name = self.entries[i].0.clone();
                let ghost entry = (name, value);
                self.entries.set(i, (name, value));
                proof {
                    update_changes_one(before, i as int, entry);
                }
                return;
            }
            i = i + 1;
        }
        self.entries.push((key.to_owned(), value));
        proof {
            push_adds_one(before, self.entries@.last());
            assert(self.entries@ =~= before.push(self.entries@.last()));
        }
    }
}

proof fn update_changes_one(entries: Seq<(String, String)>, i: int, entry: (String, String))
    requires
        0 <= i < entries.len(),
        entry.0@ == entries[i].0@,
        forall|j: int| 0 <= j < i ==> (#[trigger] entries[j]).0@ != entry.0@,
    ensures
        forall|k: Seq<char>| #[trigger]
            value_of(entries.update(i, entry), k) == (if k == entry.0@ {
                Some(entry.1@)
            } else {
                value_of(entries, k)
            }),
    decreases entries.len(),
{
    if i > 0 {
        let rest = entries.drop_first();
        assert forall|j: int| 0 <= j < i - 1 implies (#[trigger] rest[j]).0@ != entry.0@ by {
            assert(rest[j] == entries[j + 1]);
        }
        update_changes_one(rest, i - 1, entry);
        assert(entries.update(i, entry).drop_first() =~= rest.update(i - 1, entry));
        assert(entries[0].0@ != entry.0@);
        assert forall|k: Seq<char>| #[trigger]
            value_of(entries.update(i, entry), k) == (if k == entry.0@ {
                Some(entry.1@)
            } else {
                value_of(entries, k)
            }) by {
            let inner = value_of(rest.update(i - 1, entry), k);
            assert(entries.update(i, entry)[0] == entries[0]);
        }
    } else {
        assert(entries.update(0, entry).drop_first() =~= entries.drop_first());
    }
}

proof fn push_adds_one(entries: Seq<(String, String)>, entry: (String, String))
    requires
        forall|j: int| 0 <= j < entries.len() ==> (#[trigger] entries[j]).0@ != entry.0@,
    ensures
        forall|k: Seq<char>| #[trigger]
            value_of(entries.push(entry), k) == (if k == entry.0@ {
                Some(entry.1@)
            } else {
                value_of(entries, k)
            }),
    decreases entries.len(),
{
    if entries.len() > 0 {
        let rest = entries.drop_first();
        assert forall|j: int| 0 <= j < rest.len() implies (#[trigger] rest[j]).0@ != entry.0@ by {
            assert(rest[j] == entries[j + 1]);
        }
        push_adds_one(rest, entry);
        assert(entries.push(entry).drop_first() =~= rest.push(entry));
        assert(entries[0].0@ != entry.0@);
        assert forall|k: Seq<char>| #[trigger]
            value_of(entries.push(entry), k) == (if k == entry.0@ {
                Some(entry.1@)
            } else {
                value_of(entries, k)
            }) by {
            let inner = value_of(rest.push(entry), k);
            assert(entries.push(entry)[0] == entries[0]);
        }
    } else {
        assert(entries.push(entry).drop_first() =~= entries);
        assert(entries.push(entry)[0] == entry);
        assert forall|k: Seq<char>| #[trigger]
            value_of(entries.push(entry), k) == (if k == entry.0@ {
                Some(entry.1@)
            } else {
                value_of(entries, k)
            }) by {}
    }
}

/// The options that were set, with those that a profile sets in their place: host name
/// and port, and user, identity file and acceptance of new hosts where they are given.
pub open spec fn with_profile_options(
    options: Map<Seq<char>, Seq<char>>,
    p: ProfileView,
) -> Map<Seq<char>, Seq<char>> {
    let target = options.insert("hostname"@, text::trimmed(p.host)).insert(
        "port"@,
        text::decimal(p.port as nat),
    );
    let user = if text::trimmed(p.user).len() > 0 {
        target.insert("user"@, text::trimmed(p.user))
    } else {
        target
    };
    let identity = if text::trimmed(p.identity_file).len() > 0 {
        user.insert("identityfile"@, text::trimmed(p.identity_file))
    } else {
        user
    };
    if p.accept_new_host {
        identity.insert("stricthostkeychecking"@, "accept-new"@)
    } else {
        identity
    }
}

/// The configuration with the options that a profile sets.
pub fn profile_config(config: Config, profile: &ConnectionProfile) -> (r: Config)
    ensures
        config_options(r) == with_profile_options(config_options(config), profile@),
        config_tokens(r) == config_tokens(config),
{
    proof {
        reveal_strlit("hostname");
        reveal_strlit("port");
        reveal_strlit("user");
        reveal_strlit("identityfile");
        reveal_strlit("stricthostkeychecking");
    }
    let mut config = config;
    set_option(&mut config, "hostname", text::trim(profile.host.as_str()));
    let port = text::decimal_of(profile.port as u64);
    set_option(&mut config, "port", port.as_str());
    let user = text::trim(profile.user.as_str());
    if user.unicode_len() > 0 {
        set_option(&mut config, "user", user);
    }
    let identity = text::trim(profile.identity_file.as_str());
    if identity.unicode_len() > 0 {
        set_option(&mut config, "identityfile", identity);
    }
    if profile.accept_new_host {
        set_option(&mut config, "stricthostkeychecking", "accept-new");
    }
    config
}

/// Whether options are the entries with the password of a profile, where there is one,
/// in the place of another.
pub open spec fn is_completed(
    options: SshConfig,
    entries: Seq<(String, String)>,
    p: ProfileView,
) -> bool {
    forall|k: Seq<char>| #[trigger]
        options.value(k) == (if k == "password"@ && text::trimmed(p.password).len() > 0 {
            Some(text::trimmed(p.password))
        } else {
            value_of(entries, k)
        })
}

/// Adds the password of a profile, where there is one, to the options for its host.
pub fn with_password(options: SshConfig, profile: &ConnectionProfile) -> (r: SshConfig)
    ensures
        is_completed(r, options.entries@, profile@),
{
    let mut options = options;
    let password = text::trim(profile.password.as_str());
    if password.unicode_len() > 0 {
        options.insert("password", password.to_owned());
    }
    options
}

/// The options that a connection is made with: those that the profile sets, completed
/// from the configuration and the environment, and the password. The configuration is
/// asked with the options of the profile set on it, and of them only those that the
/// profile gives; what it answers is taken over with the password alone added.
pub fn build_wezterm_config(config: Config, profile: &ConnectionProfile) -> (r: SshConfig)
    ensures
        exists|c: Config, entries: Seq<(String, String)>| #[trigger]
            is_answer(c, text::trimmed(profile@.host), entries) && config_options(c)
                == with_profile_options(config_options(config), profile@) && config_tokens(c)
                == config_tokens(config) && is_completed(r, entries, profile@),
        r.value("hostname"@) is Some,
        config_tokens(config) == command::nothing_set() ==> r.value("hostname"@) == Some(
            unescaped(text::trimmed(profile@.host)),
        ),
        r.value("port"@) == Some(text::decimal(profile@.port as nat)),
        r.value("user"@) is Some,
        text::trimmed(profile@.user).len() > 0 ==> r.value("user"@) == Some(
            text::trimmed(profile@.user),
        ),
        text::trimmed(profile@.identity_file).len() > 0 ==> r.value("identityfile"@) is Some,
        text::trimmed(profile@.identity_file).len() > 0 && config_tokens(config)
            == command::nothing_set() ==> expands_to(
            text::trimmed(profile@.identity_file),
            r.value("identityfile"@)->0,
        ),
        text::trimmed(profile@.identity_file).len() > 0 && config_tokens(config)
            == command::nothing_set() && is_plain_path(text::trimmed(profile@.identity_file)) ==> (
        if is_from_home(text::trimmed(profile@.identity_file)) {
            text::trimmed(profile@.identity_file).skip(1).is_suffix_of(
                r.value("identityfile"@)->0,
            )
        } else {
            r.value("identityfile"@)->0 == text::trimmed(profile@.identity_file)
        }),
        profile@.accept_new_host ==> r.value("stricthostkeychecking"@) == Some("accept-new"@),
        text::trimmed(profile@.password).len() > 0 ==> r.value("password"@) == Some(
            text::trimmed(profile@.password),
        ),
{
    proof {
        keys_differ();
    }
    let config = profile_config(config, profile);
    let host = text::trim(profile.host.as_str());
    let entries = options_for_host(&config, host);
    let ghost answer = entries@;
    assert(call_ensures(options_for_host, (&config, host), entries));
    assert(is_answer(config, text::trimmed(profile@.host), answer));
    let r = with_password(SshConfig { entries }, profile);
    assert(is_completed(r, answer, profile@));
    proof {
        let path = text::trimmed(profile@.identity_file);
        if path.len() > 0 && is_plain_path(path) && config_tokens(config)
            == command::nothing_set() {
            plain_path_is_kept(path, r.value("identityfile"@)->0);
        }
    }
    r
}

/// The keys of the options are different texts.
proof fn keys_differ()
    ensures
        "hostname"@.len() == 8,
        "port"@.len() == 4,
        "user"@.len() == 4,
        "identityfile"@.len() == 12,
        "stricthostkeychecking"@.len() == 21,
        "password"@.len() == 8,
        "hostname"@ != "password"@,
        "port"@ != "user"@,
{
    reveal_strlit("hostname");
    reveal_strlit("port");
    reveal_strlit("user");
    reveal_strlit("identityfile");
    reveal_strlit("stricthostkeychecking");
    reveal_strlit("password");
    assert("hostname"@[0] != "password"@[0]);
    assert("port"@[0] != "user"@[0]);
}

/// A text without `%` is handed on as it is.
pub proof fn unescaped_plain(s: Seq<char>)
    requires
        !s.contains('%'),
    ensures
        unescaped(s) == s,
    decreases s.len(),
{
    if s.len() > 0 {
        assert(s.contains(s[0]));
        assert forall|c: char| s.skip(1).contains(c) implies s.contains(c) by {
            let i = s.skip(1).index_of(c);
            assert(s[i + 1] == c);
        }
        unescaped_plain(s.skip(1));
        assert(seq![s[0]] + s.skip(1) =~= s);
    }
}

/// Whether a path is plain: without `%` and `$`, and without white space.
pub open spec fn is_plain_path(path: Seq<char>) -> bool {
    !path.contains('%') && !path.contains('$') && is_one_word(path)
}

/// A plain path is kept, but for its first character where it begins at the home
/// directory: then what stands behind the tilde is kept, at the end.
pub proof fn plain_path_is_kept(path: Seq<char>, value: Seq<char>)
    requires
        is_plain_path(path),
        expands_to(path, value),
    ensures
        !is_from_home(path) ==> value == path,
        is_from_home(path) ==> path.skip(1).is_suffix_of(value),
{
    assert(!names_surroundings(path)) by {
        assert forall|i: int| 0 <= i < path.len() implies #[trigger] path[i] != '%' && path[i]
            != '$' by {
            assert(path.contains(path[i]));
        }
    }
    unescaped_plain(path);
    if path.len() > 0 {
        assert forall|c: char| path.skip(1).contains(c) implies path.contains(c) by {
            let i = path.skip(1).index_of(c);
            assert(path[i + 1] == c);
        }
        unescaped_plain(path.skip(1));
    }
}

/// The number of options that a profile gives to the ssh program.
pub open spec fn option_count(p: ProfileView) -> int {
    (if p.port != 22 {
        1int
    } else {
        0
    }) + (if text::trimmed(p.identity_file).len() > 0 {
        1int
    } else {
        0
    }) + (if p.accept_new_host {
        1int
    } else {
        0
    })
}

/// Every option of a profile is among the arguments before the destination, its name
/// followed by its value, whatever the other fields are: a port other than the usual one
/// first, the identity file next, and the acceptance of new hosts last.
pub proof fn every_option_is_given(profile: &ConnectionProfile, args: Vec<String>)
    requires
        call_ensures(system_command_args, (profile,), args),
    ensures
        args@.len() > 2 * option_count(profile@),
        profile.port != 22 ==> args@[0]@ == "-p"@ && args@[1]@ == text::decimal(
            profile.port as nat,
        ),
        text::trimmed(profile.identity_file@).len() > 0 ==> exists|i: int|
            0 <= i && i + 1 < 2 * option_count(profile@) && (#[trigger] args@[i])@ == "-i"@ && args@[i
                + 1]@ == text::trimmed(profile.identity_file@),
        profile.accept_new_host ==> args@[2 * option_count(profile@) - 2]@ == "-o"@ && args@[2
            * option_count(profile@) - 1]@ == "StrictHostKeyChecking=accept-new"@,
{
    let all = args.deep_view();
    assert forall|i: int| 0 <= i < all.len() implies (#[trigger] args@[i])@ == all[i] by {}
    if text::trimmed(profile.identity_file@).len() > 0 {
        let i: int = if profile.port != 22 {
            2
        } else {
            0
        };
        assert(args@[i]@ == "-i"@ && args@[i + 1]@ == text::trimmed(profile.identity_file@));
    }
}

/// Behind the options stand the destination and, where one is given, the trimmed remote
/// command, and nothing else.
pub proof fn destination_follows_the_options(
    profile: &ConnectionProfile,
    args: Vec<String>,
    destination: String,
)
    requires
        call_ensures(system_command_args, (profile,), args),
        call_ensures(ConnectionProfile::destination, (profile,), destination),
    ensures
        ({
            let n = 2 * option_count(profile@);
            &&& args@[n]@ == destination@
            &&& text::trimmed(profile.remote_command@).len() == 0 ==> args@.len() == n + 1
            &&& text::trimmed(profile.remote_command@).len() > 0 ==> args@.len() == n + 2 && args@[n
                + 1]@ == text::trimmed(profile.remote_command@)
        }),
{
    let all = args.deep_view();
    assert forall|i: int| 0 <= i < all.len() implies (#[trigger] args@[i])@ == all[i] by {}
}

/// An option that a profile does not give is not among the arguments before the
/// destination.
pub proof fn no_other_option_is_given(profile: &ConnectionProfile, args: Vec<String>, i: int)
    requires
        call_ensures(system_command_args, (profile,), args),
        0 <= i < option_count(profile@),
    ensures
        ({
            let name = args@[2 * i]@;
            ||| profile.port != 22 && name == "-p"@ && args@[2 * i + 1]@ == text::decimal(
                profile.port as nat,
            )
            ||| text::trimmed(profile.identity_file@).len() > 0 && name == "-i"@ && args@[2 * i
                + 1]@ == text::trimmed(profile.identity_file@)
            ||| profile.accept_new_host && name == "-o"@ && args@[2 * i + 1]@
                == "StrictHostKeyChecking=accept-new"@
        }),
{
    let all = args.deep_view();
    assert forall|k: int| 0 <= k < all.len() implies (#[trigger] args@[k])@ == all[k] by {}
}

/// The port only adds its own option: but for that, the arguments of two profiles that
/// differ in the port alone are the same.
pub proof fn port_adds_its_own_option(
    a: &ConnectionProfile,
    b: &ConnectionProfile,
    with_port: Vec<String>,
    without: Vec<String>,
)
    requires
        a.port != 22,
        b.port == 22,
        a@ == (ProfileView { port: a.port, ..b@ }),
        call_ensures(system_command_args, (a,), with_port),
        call_ensures(system_command_args, (b,), without),
    ensures
        with_port@.len() == without@.len() + 2,
        with_port@[0]@ == "-p"@,
        forall|i: int| 0 <= i < without@.len() ==> (#[trigger] without@[i])@ == with_port@[i + 2]@,
{
    let x = with_port.deep_view();
    let y = without.deep_view();
    assert forall|i: int| 0 <= i < x.len() implies (#[trigger] with_port@[i])@ == x[i] by {}
    assert forall|i: int| 0 <= i < y.len() implies (#[trigger] without@[i])@ == y[i] by {}
    assert(x =~= seq!["-p"@, text::decimal(a.port as nat)] + y);
}

/// The ssh command is the program `ssh` with the arguments of the profile.
pub proof fn system_command_runs_ssh(
    profile: &ConnectionProfile,
    command: CommandBuilder,
    args: Vec<String>,
)
    requires
        call_ensures(build_system_command, (profile,), command),
        call_ensures(system_command_args, (profile,), args),
    ensures
        command::command_line(command).len() == args@.len() + 1,
        command::command_line(command)[0] == "ssh"@,
        forall|i: int|
            0 <= i < args@.len() ==> command::command_line(command)[i + 1] == (#[trigger] args@[i])@,
        command::command_dir(command) is None,
{
    let all = args.deep_view();
    assert forall|i: int| 0 <= i < all.len() implies (#[trigger] args@[i])@ == all[i] by {}
}

/// An option has the value of the first entry with its key, and none where no entry has
/// the key.
pub proof fn first_entry_counts(options: &SshConfig, key: &str, r: Option<&String>)
    requires
        call_ensures(SshConfig::get, (options, key), r),
    ensures
        match r {
            Some(v) => exists|i: int|
                0 <= i < options.entries@.len() && (#[trigger] options.entries@[i]).0@ == key@
                    && options.entries@[i].1@ == v@ && forall|j: int|
                    0 <= j < i ==> (#[trigger] options.entries@[j]).0@ != key@,
            None => forall|i: int|
                0 <= i < options.entries@.len() ==> (#[trigger] options.entries@[i]).0@ != key@,
        },
{
    value_is_of_first(options.entries@, key@);
}

proof fn value_is_of_first(entries: Seq<(String, String)>, key: Seq<char>)
    ensures
        match value_of(entries, key) {
            Some(v) => exists|i: int|
                0 <= i < entries.len() && (#[trigger] entries[i]).0@ == key && entries[i].1@ == v
                    && forall|j: int| 0 <= j < i ==> (#[trigger] entries[j]).0@ != key,
            None => forall|i: int| 0 <= i < entries.len() ==> (#[trigger] entries[i]).0@ != key,
        },
    decreases entries.len(),
{
    if entries.len() > 0 {
        let rest = entries.drop_first();
        if entries[0].0@ == key {
            assert(entries[0].1@ == value_of(entries, key)->0);
        } else {
            value_is_of_first(rest, key);
            match value_of(rest, key) {
                Some(v) => {
                    let i = choose|i: int|
                        0 <= i < rest.len() && (#[trigger] rest[i]).0@ == key && rest[i].1@ == v
                            && forall|j: int| 0 <= j < i ==> (#[trigger] rest[j]).0@ != key;
                    assert(entries[i + 1] == rest[i]);
                    assert forall|j: int| 0 <= j < i + 1 implies (#[trigger] entries[j]).0@
                        != key by {
                        if j > 0 {
                            assert(rest[j - 1] == entries[j]);
                        }
                    }
                },
                None => {
                    assert forall|i: int| 0 <= i < entries.len() implies (#[trigger] entries[i]).0@
                        != key by {
                        if i > 0 {
                            assert(rest[i - 1] == entries[i]);
                        }
                    }
                },
            }
        }
    }
}

/// Where a profile has a password, it is the password of the connection, trimmed; else
/// that stays what it was. Every other option stays what it was.
pub proof fn password_is_added_alone(
    options: SshConfig,
    profile: &ConnectionProfile,
    r: SshConfig,
    key: Seq<char>,
)
    requires
        call_ensures(with_password, (options, profile), r),
    ensures
        text::trimmed(profile.password@).len() > 0 ==> r.value("password"@) == Some(
            text::trimmed(profile.password@),
        ),
        text::trimmed(profile.password@).len() == 0 || key != "password"@ ==> r.value(key)
            == options.value(key),
{
}

/// A profile sets its host and port in any case, its user and its identity file where
/// they are given, and the acceptance of new hosts where that is wanted. Every other
/// option stays as it was set.
pub proof fn profile_sets_its_options(
    config: Config,
    profile: &ConnectionProfile,
    r: Config,
    key: Seq<char>,
)
    requires
        call_ensures(profile_config, (config, profile), r),
    ensures
        ({
            let before = config_options(config);
            let after = config_options(r);
            let user = text::trimmed(profile.user@);
            let identity = text::trimmed(profile.identity_file@);
            let set = |k: Seq<char>, v: Seq<char>| after.contains_key(k) && after[k] == v;
            let kept = |k: Seq<char>|
                after.contains_key(k) == before.contains_key(k) && (before.contains_key(k) ==> after[k]
                    == before[k]);
            &&& set("hostname"@, text::trimmed(profile.host@))
            &&& set("port"@, text::decimal(profile.port as nat))
            &&& if user.len() > 0 {
                set("user"@, user)
            } else {
                kept("user"@)
            }
            &&& if identity.len() > 0 {
                set("identityfile"@, identity)
            } else {
                kept("identityfile"@)
            }
            &&& if profile.accept_new_host {
                set("stricthostkeychecking"@, "accept-new"@)
            } else {
                kept("stricthostkeychecking"@)
            }
            &&& key != "hostname"@ && key != "port"@ && key != "user"@ && key != "identityfile"@ && key
                != "stricthostkeychecking"@ ==> kept(key)
        }),
        config_tokens(r) == config_tokens(config),
{
    keys_differ();
    assert("hostname"@.len() != "port"@.len());
}

/// The options that a connection is made with hold what the profile gives, and say nothing
/// of it that the profile does not say: they are what the configuration answers, with the
/// password added.
pub proof fn connection_options_are_of_the_profile(
    config: Config,
    profile: &ConnectionProfile,
    r: SshConfig,
)
    requires
        call_ensures(build_wezterm_config, (config, profile), r),
    ensures
        r.value("port"@) == Some(text::decimal(profile.port as nat)),
        text::trimmed(profile.user@).len() > 0 ==> r.value("user"@) == Some(
            text::trimmed(profile.user@),
        ),
        profile.accept_new_host ==> r.value("stricthostkeychecking"@) == Some("accept-new"@),
        text::trimmed(profile.password@).len() > 0 ==> r.value("password"@) == Some(
            text::trimmed(profile.password@),
        ),
        config_tokens(config) == command::nothing_set() && !text::trimmed(profile.host@).contains(
            '%',
        ) ==> r.value("hostname"@) == Some(text::trimmed(profile.host@)),
        exists|asked: Config, answer: Seq<(String, String)>|
            {
                &&& #[trigger] is_answer(asked, text::trimmed(profile.host@), answer)
                &&& forall|k: Seq<char>|
                    k != "password"@ ==> #[trigger] r.value(k) == value_of(answer, k)
                &&& text::trimmed(profile.password@).len() == 0 ==> r.value("password"@)
                    == value_of(answer, "password"@)
                &&& !profile.accept_new_host ==> same_option(
                    config,
                    asked,
                    "stricthostkeychecking"@,
                )
                &&& text::trimmed(profile.user@).len() == 0 ==> same_option(config, asked, "user"@)
                &&& text::trimmed(profile.identity_file@).len() == 0 ==> same_option(
                    config,
                    asked,
                    "identityfile"@,
                )
            },
{
    if !text::trimmed(profile.host@).contains('%') {
        unescaped_plain(text::trimmed(profile.host@));
    }
    let (asked, answer) = choose|c: Config, entries: Seq<(String, String)>| #[trigger]
        is_answer(c, text::trimmed(profile@.host), entries) && config_options(c)
            == with_profile_options(config_options(config), profile@) && config_tokens(c)
            == config_tokens(config) && is_completed(r, entries, profile@);
    assert(is_answer(asked, text::trimmed(profile.host@), answer));
    keys_differ();
    assert("hostname"@.len() != "port"@.len());
    assert forall|k: Seq<char>| k != "password"@ implies #[trigger] r.value(k) == value_of(
        answer,
        k,
    ) by {}
}

/// Whether an option is set alike on two configurations.
pub open spec fn same_option(a: Config, b: Config, key: Seq<char>) -> bool {
    &&& config_options(a).contains_key(key) == config_options(b).contains_key(key)
    &&& config_options(a).contains_key(key) ==> config_options(a)[key] == config_options(b)[key]
}

/// `s` with every `%` doubled.
pub open spec fn escaped(s: Seq<char>) -> Seq<char>
    decreases s.len(),
{
    if s.len() == 0 {
        Seq::empty()
    } else if s.last() == '%' {
        escaped(s.drop_last()).push('%').push('%')
    } else {
        escaped(s.drop_last()).push(s.last())
    }
}

/// Any text can be written so that it is handed on as it is: with every `%` doubled.
pub proof fn unescaping_undoes_escaping(s: Seq<char>)
    ensures
        unescaped(escaped(s)) == s,
    decreases s.len(),
{
    if s.len() > 0 {
        let first = seq![s[0]];
        let rest = s.skip(1);
        escaped_of_both(first, rest);
        assert(first + rest =~= s);
        assert(first.drop_last() =~= Seq::empty());
        assert(escaped(first.drop_last()) =~= Seq::empty());
        unescaping_undoes_escaping(rest);
        let e = escaped(s);
        if s[0] == '%' {
            assert(escaped(first) =~= seq!['%', '%']);
            assert(e.skip(2) =~= escaped(rest));
            assert(e[0] == '%' && e[1] == '%');
            assert(unescaped(e) =~= seq!['%'] + rest);
        } else {
            assert(escaped(first) =~= first);
            assert(e.skip(1) =~= escaped(rest));
            assert(e[0] == s[0]);
            assert(unescaped(e) =~= first + rest);
        }
        assert(unescaped(e) =~= s);
    } else {
        assert(escaped(s) =~= s);
    }
}

proof fn escaped_of_both(a: Seq<char>, b: Seq<char>)
    ensures
        escaped(a + b) == escaped(a) + escaped(b),
    decreases b.len(),
{
    if b.len() > 0 {
        escaped_of_both(a, b.drop_last());
        assert((a + b).drop_last() =~= a + b.drop_last());
        assert(escaped(a + b) =~= escaped(a) + escaped(b));
    } else {
        assert(a + b =~= a);
        assert(escaped(a + b) =~= escaped(a) + escaped(b));
    }
}

} // verus!
