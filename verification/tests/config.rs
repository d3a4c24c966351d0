use rshell::config::{
    base_directory, terminal_type_at, terminal_type_position, AppTheme, BackspaceKeyMode, Color, ColorScheme,
    DeleteKeyMode, GlobalConfig, SettingsRepository, TerminalSettingChange, TerminalSettings,
    TERMINAL_TYPES,
};
use std::path::PathBuf;

#[test]
fn default_resolve_produces_expected_values() {
    let settings = TerminalSettings::default();
    let resolved = settings.resolve();
    assert_eq!(resolved.terminal_type, "xterm-256color");
    assert_eq!(resolved.initial_cols, 120);
    assert_eq!(resolved.initial_rows, 36);
    assert_eq!(resolved.scrollback_lines, 6_000);
    assert!(resolved.left_alt_as_meta);
    assert!(resolved.mouse_reporting);
    assert!(!resolved.enable_csi_u);
}

#[test]
fn merge_over_prefers_session_values() {
    let global = TerminalSettings {
        scrollback_lines: Some(3_000),
        terminal_type: Some("linux".into()),
        ..Default::default()
    };
    let session = TerminalSettings {
        scrollback_lines: Some(10_000),
        ..Default::default()
    };
    let merged = session.merge_over(&global);
    assert_eq!(merged.scrollback_lines, Some(10_000));
    assert_eq!(merged.terminal_type, Some("linux".into()));
}

#[test]
fn merge_over_fills_unset_from_defaults() {
    let global = TerminalSettings {
        initial_cols: Some(80),
        initial_rows: Some(24),
        ..Default::default()
    };
    let session = TerminalSettings::default();
    let merged = session.merge_over(&global);
    assert_eq!(merged.initial_cols, Some(80));
    assert_eq!(merged.initial_rows, Some(24));
}

#[test]
fn empty_settings_detected() {
    assert!(TerminalSettings::default().is_empty());
    let s = TerminalSettings {
        scrollback_lines: Some(1000),
        ..Default::default()
    };
    assert!(!s.is_empty());
}

#[test]
fn every_default_is_resolved() {
    let resolved = TerminalSettings::default().resolve();
    assert_eq!(resolved.delete_key, DeleteKeyMode::Vt220Del);
    assert_eq!(resolved.backspace_key, BackspaceKeyMode::CtrlH);
    assert!(resolved.right_alt_as_meta);
    assert!(!resolved.enable_kitty_keyboard);
    assert!(!resolved.enable_kitty_graphics);
    assert!(resolved.scroll_on_output);
    assert!(!resolved.scroll_on_keypress);
    assert_eq!(resolved.answerback, "rsHell");
    assert_eq!(resolved.color_scheme, ColorScheme::Default);
}

#[test]
fn merging_unset_settings_changes_nothing() {
    let settings = TerminalSettings {
        answerback: Some("hello".into()),
        enable_csi_u: Some(true),
        ..Default::default()
    };
    let unset = TerminalSettings::default();
    assert_eq!(settings.merge_over(&unset), settings);
    assert_eq!(unset.merge_over(&settings), settings);
}

#[test]
fn a_change_survives_the_defaults() {
    let mut session = TerminalSettings::default();
    session.apply(TerminalSettingChange::Cols(100));
    session.apply(TerminalSettingChange::Answerback("x".into()));
    let defaults = TerminalSettings {
        initial_cols: Some(80),
        initial_rows: Some(24),
        ..Default::default()
    };
    let resolved = session.merge_over(&defaults).resolve();
    assert_eq!(resolved.initial_cols, 100);
    assert_eq!(resolved.initial_rows, 24);
    assert_eq!(resolved.answerback, "x");
}

#[test]
fn every_change_sets_its_field() {
    let mut s = TerminalSettings::default();
    s.apply(TerminalSettingChange::TerminalType("vt100".into()));
    s.apply(TerminalSettingChange::Rows(40));
    s.apply(TerminalSettingChange::ScrollbackLines(7));
    s.apply(TerminalSettingChange::DeleteKey(DeleteKeyMode::Ascii127));
    s.apply(TerminalSettingChange::BackspaceKey(BackspaceKeyMode::Vt220Del));
    s.apply(TerminalSettingChange::LeftAltMeta(false));
    s.apply(TerminalSettingChange::RightAltMeta(false));
    s.apply(TerminalSettingChange::CsiU(true));
    s.apply(TerminalSettingChange::KittyKeyboard(true));
    s.apply(TerminalSettingChange::KittyGraphics(true));
    s.apply(TerminalSettingChange::MouseReporting(false));
    s.apply(TerminalSettingChange::ScrollOnOutput(false));
    s.apply(TerminalSettingChange::ScrollOnKeypress(true));
    assert_eq!(
        s,
        TerminalSettings {
            terminal_type: Some("vt100".into()),
            initial_cols: None,
            initial_rows: Some(40),
            scrollback_lines: Some(7),
            delete_key: Some(DeleteKeyMode::Ascii127),
            backspace_key: Some(BackspaceKeyMode::Vt220Del),
            left_alt_as_meta: Some(false),
            right_alt_as_meta: Some(false),
            enable_csi_u: Some(true),
            enable_kitty_keyboard: Some(true),
            enable_kitty_graphics: Some(true),
            mouse_reporting: Some(false),
            scroll_on_output: Some(false),
            scroll_on_keypress: Some(true),
            answerback: None,
            color_scheme: None,
        }
    );
}

#[test]
fn labels_of_choices() {
    let themes: Vec<&str> = AppTheme::ALL.iter().map(|t| t.label()).collect();
    assert_eq!(themes, vec!["Light", "Dark", "System"]);
    let deletes: Vec<&str> = DeleteKeyMode::ALL.iter().map(|t| t.label()).collect();
    assert_eq!(
        deletes,
        vec!["VT220 Del (Esc[3~)", "ASCII 127 (Ctrl+?)", "Backspace (Ctrl+H)"]
    );
    let backs: Vec<&str> = BackspaceKeyMode::ALL.iter().map(|t| t.label()).collect();
    assert_eq!(
        backs,
        vec!["VT220 Del (Esc[3~)", "ASCII 127 (Ctrl+?)", "Backspace (Ctrl+H)"]
    );
    let schemes: Vec<&str> = ColorScheme::ALL.iter().map(|t| t.label()).collect();
    assert_eq!(schemes.len(), 10);
    assert_eq!(schemes[0], "Default (XTerm)");
    assert_eq!(schemes[9], "Campbell PowerShell");
}

#[test]
fn themes_and_their_preference() {
    assert_eq!(AppTheme::default(), AppTheme::Light);
    assert_eq!(AppTheme::Light.prefers_dark(), Some(false));
    assert_eq!(AppTheme::Dark.prefers_dark(), Some(true));
    assert_eq!(AppTheme::System.prefers_dark(), None);
    for i in 0..3 {
        assert_eq!(AppTheme::at(i).unwrap().position(), i);
    }
    assert_eq!(AppTheme::at(3), None);
}

#[test]
fn default_palette_inherits_everything() {
    let palette = ColorScheme::Default.build_palette();
    assert_eq!(palette.colors.len(), 256);
    assert!(palette.colors.iter().all(|c| c.is_none()));
    assert_eq!(palette.foreground, None);
    assert_eq!(palette.selection_bg, None);
}

#[test]
fn scheme_palette_overrides_sixteen_colors() {
    let (ansi, fg, bg, cursor, selection) = ColorScheme::Dracula.scheme_colors();
    let palette = ColorScheme::Dracula.build_palette();
    assert_eq!(palette.colors.len(), 256);
    for i in 0..16 {
        let c = palette.colors[i].unwrap();
        assert_eq!((c.red, c.green, c.blue), ansi[i]);
        assert_eq!(c.opacity_percent, 100);
    }
    assert!(palette.colors[16..].iter().all(|c| c.is_none()));
    let solid = |rgb: (u8, u8, u8)| {
        Some(Color { red: rgb.0, green: rgb.1, blue: rgb.2, opacity_percent: 100 })
    };
    assert_eq!(palette.foreground, solid(fg));
    assert_eq!(palette.background, solid(bg));
    assert_eq!(palette.cursor_fg, solid(bg));
    assert_eq!(palette.cursor_bg, solid(cursor));
    assert_eq!(palette.cursor_border, solid(cursor));
    assert_eq!(
        palette.selection_fg,
        Some(Color { red: 0, green: 0, blue: 0, opacity_percent: 0 })
    );
    assert_eq!(
        palette.selection_bg,
        Some(Color {
            red: selection.0,
            green: selection.1,
            blue: selection.2,
            opacity_percent: 50,
        })
    );
}

#[test]
fn one_dark_colors() {
    let (ansi, fg, bg, _, _) = ColorScheme::OneDark.scheme_colors();
    assert_eq!(ansi[0], (0x28, 0x2c, 0x34));
    assert_eq!(fg, (0xab, 0xb2, 0xbf));
    assert_eq!(bg, (0x28, 0x2c, 0x34));
}

#[test]
fn terminal_types_by_place() {
    assert_eq!(TERMINAL_TYPES.len(), 10);
    for (i, name) in TERMINAL_TYPES.iter().enumerate() {
        assert_eq!(terminal_type_position(name), i);
        assert_eq!(terminal_type_at(i), Some(*name));
    }
    assert_eq!(terminal_type_position("no such type"), 0);
    assert_eq!(terminal_type_at(10), None);
    assert_eq!(terminal_type_at(u32::MAX as usize), None);
}

#[test]
fn settings_repository_keeps_its_path() {
    let repository = SettingsRepository::new(PathBuf::from("/tmp/settings.json"));
    assert_eq!(repository.path(), &PathBuf::from("/tmp/settings.json"));
}

#[test]
fn default_global_config() {
    let config = GlobalConfig::default();
    assert_eq!(config.theme, AppTheme::Light);
    assert!(config.terminal.is_empty());
    assert!(config.clone().terminal.is_empty());
}

#[test]
fn the_first_known_directory_is_taken() {
    let dir = |s: &str| Some(PathBuf::from(s));
    assert_eq!(base_directory(dir("/a"), dir("/b"), dir("/c"), dir("/d")), dir("/a"));
    assert_eq!(base_directory(None, dir("/b"), dir("/c"), dir("/d")), dir("/b"));
    assert_eq!(base_directory(None, None, dir("/c"), dir("/d")), dir("/c"));
    assert_eq!(base_directory(None, None, None, dir("/d")), dir("/d"));
    assert_eq!(base_directory(None, None, None, None), None);
}
