use rshell::command::build_local_command;
use rshell::config::TerminalSettings;
use rshell::connection::{ConnectionBackend, ConnectionProfile};
use rshell::ssh::{
    backend_caption, build_system_command, build_wezterm_config, system_command_args,
    with_password, SshConfig,
};
use std::path::PathBuf;
use wezterm_ssh::Config;

fn config_with_files() -> Config {
    let mut config = Config::new();
    config.add_default_config_files();
    config
}

#[test]
fn system_command_contains_destination() {
    let mut profile = ConnectionProfile::new("Staging", "staging.internal");
    profile.user = "ops".into();
    profile.port = 2222;

    let args = system_command_args(&profile);
    assert!(args.iter().any(|arg| arg == "ops@staging.internal"));
    assert!(args.iter().any(|arg| arg == "2222"));
    assert_eq!(args.first().map(String::as_str), Some("-p"));
}

#[test]
fn wezterm_config_contains_basic_target_information() {
    let mut profile = ConnectionProfile::new("Prod", "prod.example.com");
    profile.user = "deploy".into();
    let config = build_wezterm_config(config_with_files(), &profile);

    assert_eq!(
        config.get("hostname").map(String::as_str),
        Some("prod.example.com")
    );
    assert_eq!(config.get("user").map(String::as_str), Some("deploy"));
    assert_eq!(config.get("port").map(String::as_str), Some("22"));
}

#[test]
fn every_argument_in_its_place() {
    let mut profile = ConnectionProfile::new("x", "host");
    profile.user = "u".into();
    profile.port = 8022;
    profile.identity_file = " ~/.ssh/key ".into();
    profile.remote_command = " uptime -p ".into();
    assert_eq!(
        system_command_args(&profile),
        vec![
            "-p",
            "8022",
            "-i",
            "~/.ssh/key",
            "-o",
            "StrictHostKeyChecking=accept-new",
            "u@host",
            "uptime -p",
        ]
    );
    profile.port = 22;
    profile.identity_file = "  ".into();
    profile.accept_new_host = false;
    profile.remote_command = String::new();
    assert_eq!(system_command_args(&profile), vec!["u@host"]);
}

#[test]
fn system_command_is_ssh_with_arguments() {
    let mut profile = ConnectionProfile::new("x", "host");
    profile.port = 8022;
    profile.accept_new_host = false;
    let command = build_system_command(&profile);
    assert_eq!(command.as_unix_command_line().unwrap(), "ssh -p 8022 host");
    assert!(command.get_cwd().is_none());
    assert_eq!(command.iter_extra_env_as_str().count(), 0);
}

#[test]
fn local_command_has_directory_and_terminal_type() {
    let settings = TerminalSettings::default().resolve();
    let command = build_local_command("/bin/sh", PathBuf::from("/tmp"), &settings);
    assert_eq!(command.as_unix_command_line().unwrap(), "/bin/sh");
    assert_eq!(command.get_cwd().unwrap().to_str(), Some("/tmp"));
    let vars: Vec<(&str, &str)> = command.iter_extra_env_as_str().collect();
    assert_eq!(vars, vec![("TERM", "xterm-256color")]);
}

#[test]
fn wezterm_config_holds_options_and_password() {
    let mut profile = ConnectionProfile::new("x", " we%%ird ");
    profile.port = 0;
    profile.identity_file = "/keys/id".into();
    profile.password = " secret ".into();
    let config = build_wezterm_config(config_with_files(), &profile);
    assert_eq!(config.get("hostname").map(String::as_str), Some("we%ird"));
    assert_eq!(config.get("port").map(String::as_str), Some("0"));
    assert_eq!(config.get("identityfile").map(String::as_str), Some("/keys/id"));
    assert_eq!(
        config.get("stricthostkeychecking").map(String::as_str),
        Some("accept-new")
    );
    assert_eq!(config.get("password").map(String::as_str), Some("secret"));
    assert!(config.get("user").is_some());
}

#[test]
fn only_what_the_profile_gives_is_set() {
    let mut profile = ConnectionProfile::new("x", "h");
    profile.accept_new_host = false;
    let mut config = Config::new();
    config.add_config_string(
        "User filed\nPort 7\nStrictHostKeyChecking yes\nIdentityFile /filed/id\nCompression yes\n",
    );
    let options = build_wezterm_config(config.clone(), &profile);
    let get = |options: &SshConfig, key: &str| options.get(key).cloned();
    assert_eq!(get(&options, "user"), Some("filed".into()));
    assert_eq!(get(&options, "port"), Some("22".into()));
    assert_eq!(get(&options, "stricthostkeychecking"), Some("yes".into()));
    assert_eq!(get(&options, "identityfile"), Some("/filed/id".into()));
    assert_eq!(get(&options, "compression"), Some("yes".into()));
    assert_eq!(get(&options, "password"), None);
    profile.accept_new_host = true;
    profile.user = "given".into();
    let options = build_wezterm_config(config, &profile);
    assert_eq!(get(&options, "user"), Some("given".into()));
    assert_eq!(get(&options, "stricthostkeychecking"), Some("accept-new".into()));
}

#[test]
fn options_for_the_host_are_taken() {
    let profile = ConnectionProfile::new("x", " h ");
    let mut config = Config::new();
    config.add_config_string("Host other\n User no\nHost h\n User yes\n");
    let options = build_wezterm_config(config, &profile);
    assert_eq!(options.get("user").map(String::as_str), Some("yes"));
    assert_eq!(options.get("hostname").map(String::as_str), Some("h"));
}

#[test]
fn identity_file_is_handed_on() {
    let identity = |path: &str| {
        let mut profile = ConnectionProfile::new("x", "h");
        profile.identity_file = path.into();
        let config = build_wezterm_config(config_with_files(), &profile);
        config.get("identityfile").cloned()
    };
    assert!(identity("~/.ssh/id_rsa").unwrap().ends_with("/.ssh/id_rsa"));
    assert!(identity(" ~/50%%/id ").unwrap().ends_with("/50%/id"));
    assert_eq!(identity("~other/id"), Some("~other/id".into()));
    assert_eq!(identity("/a~/id"), Some("/a~/id".into()));
    assert_eq!(identity("/keys/%%h/id"), Some("/keys/%h/id".into()));
    assert_eq!(identity("/keys/$x/id"), Some("/keys/$x/id".into()));
    let spaced = identity("/my  keys/id").unwrap();
    assert_eq!(spaced.split_whitespace().collect::<Vec<_>>(), vec!["/my", "keys/id"]);
    let spaced = identity("~/my keys/id").unwrap();
    assert!(spaced.ends_with("/my keys/id"));
    assert!(identity("%d/.ssh/id").is_some());
    assert!(identity("${RSHELL_UNSET_KEYS}/id").unwrap().ends_with("/id"));
}

#[test]
fn password_is_added_only_where_given() {
    let mut profile = ConnectionProfile::new("x", "h");
    profile.password = "  ".into();
    let options = SshConfig { entries: vec![("a".into(), "1".into())] };
    let config = with_password(options, &profile);
    assert!(config.get("password").is_none());
    assert_eq!(config.get("a").map(String::as_str), Some("1"));
    profile.password = "p".into();
    let options = SshConfig {
        entries: vec![("a".into(), "1".into()), ("password".into(), "old".into())],
    };
    let config = with_password(options, &profile);
    assert_eq!(config.get("password").map(String::as_str), Some("p"));
    assert_eq!(config.get("a").map(String::as_str), Some("1"));
    assert_eq!(config.entries.len(), 2);
}

#[test]
fn options_are_set_and_replaced() {
    let mut config = SshConfig { entries: Vec::new() };
    config.insert("k", "1".into());
    config.insert("l", "2".into());
    config.insert("k", "3".into());
    assert_eq!(config.get("k").map(String::as_str), Some("3"));
    assert_eq!(config.get("l").map(String::as_str), Some("2"));
    assert!(config.get("m").is_none());
}

#[test]
fn captions_of_backends() {
    assert_eq!(backend_caption(ConnectionBackend::SystemOpenSsh), "System OpenSSH");
    assert_eq!(backend_caption(ConnectionBackend::WezTermSsh), "WezTerm SSH");
}
