use flip_companion::config::{
    apps_candidates, create_backends, dirs_fallback, load_apps, load_theme, populate_app_store,
    startup_mode, theme_candidates, AppEntry, Attempt, Backend, Backends, Config, Mode,
};
use flip_companion::defaults;
use flip_companion::theme::{apply_theme, parse_hex, Argb, ThemeColors, ThemeEntries};

fn config(theme: Option<&str>, apps: Option<&str>, socket: Option<&str>) -> Config {
    Config {
        mock: false,
        output: None,
        lease_socket: socket.map(|s| s.to_string()),
        apps_config: apps.map(|s| s.to_string()),
        theme_config: theme.map(|s| s.to_string()),
    }
}

fn bytes(s: &str) -> Vec<u8> {
    s.as_bytes().to_vec()
}

#[test]
fn default_colours() {
    assert_eq!(defaults::background(), "#1a1a2e");
    assert_eq!(defaults::surface(), "#16213e");
    assert_eq!(defaults::interactive(), "#0f3460");
    assert_eq!(defaults::interactive_pressed(), "#1a5276");
    assert_eq!(defaults::text_primary(), "#e0e0f0");
    assert_eq!(defaults::text_secondary(), "#a0a0b8");
    assert_eq!(defaults::accent(), "#e94560");
    assert_eq!(defaults::border(), "#2a2a4a");
    assert_eq!(defaults::running_app(), "#1a3a1a");
    assert_eq!(defaults::running_app_text(), "#90ee90");
    let theme = ThemeColors::default();
    assert_eq!(theme.background, defaults::background());
    assert_eq!(theme.running_app_text, defaults::running_app_text());
}

#[test]
fn hex_colours_are_read_with_full_alpha() {
    assert_eq!(parse_hex("#1a1a2e"), 0xFF1A1A2E);
    assert_eq!(parse_hex("1A1A2E"), 0xFF1A1A2E);
    assert_eq!(parse_hex("###ffffff"), 0xFFFFFFFF);
    assert_eq!(parse_hex("#fff"), 0xFF000FFF);
    assert_eq!(parse_hex("#+12"), 0xFF000012);
    assert_eq!(parse_hex("#80123456"), 0xFF123456);
}

#[test]
fn what_is_no_colour_reads_as_black() {
    for s in ["", "#", "red", "#12345g", "#123456789", "#-1", " #ffffff", "#ffffff ", "#+"] {
        assert_eq!(parse_hex(s), 0xFF000000, "{:?}", s);
    }
}

#[test]
fn palette_has_the_channels_of_the_theme() {
    let mut theme = ThemeColors::default();
    theme.accent = "#0102fe".to_string();
    theme.border = "nonsense".to_string();
    let palette = apply_theme(&theme);
    assert_eq!(palette.background, Argb { alpha: 255, red: 0x1a, green: 0x1a, blue: 0x2e });
    assert_eq!(palette.surface, Argb { alpha: 255, red: 0x16, green: 0x21, blue: 0x3e });
    assert_eq!(palette.interactive, Argb { alpha: 255, red: 0x0f, green: 0x34, blue: 0x60 });
    assert_eq!(palette.interactive_pressed, Argb { alpha: 255, red: 0x1a, green: 0x52, blue: 0x76 });
    assert_eq!(palette.text_primary, Argb { alpha: 255, red: 0xe0, green: 0xe0, blue: 0xf0 });
    assert_eq!(palette.text_secondary, Argb { alpha: 255, red: 0xa0, green: 0xa0, blue: 0xb8 });
    assert_eq!(palette.accent, Argb { alpha: 255, red: 0x01, green: 0x02, blue: 0xfe });
    assert_eq!(palette.border, Argb { alpha: 255, red: 0, green: 0, blue: 0 });
    assert_eq!(palette.running_app, Argb { alpha: 255, red: 0x1a, green: 0x3a, blue: 0x1a });
    assert_eq!(palette.running_app_text, Argb { alpha: 255, red: 0x90, green: 0xee, blue: 0x90 });
}

#[test]
fn lease_socket_turns_game_mode_on() {
    assert!(matches!(startup_mode(&config(None, None, None)), Mode::Desktop));
    match startup_mode(&config(None, None, Some(""))) {
        Mode::Game { socket } => assert_eq!(socket, "/tmp/gamescope-lease.sock"),
        Mode::Desktop => panic!("desktop"),
    }
    match startup_mode(&config(None, None, Some("/run/lease"))) {
        Mode::Game { socket } => assert_eq!(socket, "/run/lease"),
        Mode::Desktop => panic!("desktop"),
    }
}

#[test]
fn backends_fall_back_to_mocks() {
    let mock = Backends { stats: Backend::Mock, input: Backend::Mock, windows: Backend::Mock };
    assert_eq!(create_backends(true, true, true), mock);
    assert_eq!(create_backends(true, false, false), mock);
    assert_eq!(
        create_backends(false, true, true),
        Backends { stats: Backend::System, input: Backend::System, windows: Backend::System }
    );
    assert_eq!(
        create_backends(false, false, true),
        Backends { stats: Backend::System, input: Backend::Mock, windows: Backend::System }
    );
    assert_eq!(
        create_backends(false, true, false),
        Backends { stats: Backend::System, input: Backend::System, windows: Backend::Mock }
    );
}

#[test]
fn config_directory_follows_the_environment() {
    assert_eq!(
        dirs_fallback(Some(bytes("/x/cfg")), Some(bytes("/home/u"))),
        Some(bytes("/x/cfg/flip-companion"))
    );
    assert_eq!(
        dirs_fallback(None, Some(bytes("/home/u"))),
        Some(bytes("/home/u/.config/flip-companion"))
    );
    assert_eq!(
        dirs_fallback(None, Some(bytes("/home/u/"))),
        Some(bytes("/home/u/.config/flip-companion"))
    );
    assert_eq!(dirs_fallback(Some(bytes("")), None), Some(bytes("flip-companion")));
    assert_eq!(dirs_fallback(Some(vec![0xff]), None), Some([&[0xffu8][..], b"/flip-companion"].concat()));
    assert_eq!(dirs_fallback(None, None), None);
}

#[test]
fn paths_are_joined_as_the_standard_library_does() {
    for base in ["", "/", "/a", "/a/", "a", "a//"] {
        let expected = std::path::Path::new(base).join("flip-companion");
        assert_eq!(
            dirs_fallback(Some(bytes(base)), None),
            Some(bytes(expected.to_str().unwrap()))
        );
    }
}

#[test]
fn files_are_searched_in_order() {
    let dir = Some(bytes("/c"));
    assert_eq!(
        theme_candidates(&config(None, None, None), &dir),
        vec![bytes("theme.toml"), bytes("/c/theme.toml")]
    );
    assert_eq!(
        theme_candidates(&config(Some("/my.toml"), None, None), &dir),
        vec![bytes("/my.toml"), bytes("theme.toml"), bytes("/c/theme.toml")]
    );
    assert_eq!(apps_candidates(&config(None, None, None), &None), vec![bytes("apps.toml")]);
    assert_eq!(
        apps_candidates(&config(None, Some("a.toml"), None), &dir),
        vec![bytes("a.toml"), bytes("apps.toml"), bytes("/c/apps.toml")]
    );
}

fn theme(background: &str) -> ThemeColors {
    let mut t = ThemeColors::default();
    t.background = background.to_string();
    t
}

#[test]
fn first_theme_that_loads_is_used() {
    let t = load_theme(vec![
        Attempt::Unreadable,
        Attempt::Malformed,
        Attempt::Loaded(theme("#111111")),
        Attempt::Loaded(theme("#222222")),
    ]);
    assert_eq!(t.background, "#111111");
    assert_eq!(load_theme(vec![]).background, "#1a1a2e");
    assert_eq!(load_theme(vec![Attempt::Unreadable, Attempt::Malformed]).accent, "#e94560");
}

#[test]
fn search_stops_at_a_file_that_loads() {
    let unreadable: Attempt<ThemeColors> = Attempt::Unreadable;
    let malformed: Attempt<ThemeColors> = Attempt::Malformed;
    assert!(unreadable.search_goes_on());
    assert!(malformed.search_goes_on());
    assert!(!Attempt::Loaded(theme("#0")).search_goes_on());
}

fn entry(name: &str, url: Option<&str>) -> AppEntry {
    AppEntry {
        name: name.to_string(),
        icon: "i".to_string(),
        command: "c".to_string(),
        url: url.map(|u| u.to_string()),
    }
}

#[test]
fn apps_come_from_the_first_file_that_loads() {
    let apps = load_apps(vec![Attempt::Malformed, Attempt::Loaded(vec![entry("a", None)])]);
    assert_eq!(apps.len(), 1);
    assert_eq!(apps[0].name, "a");
    assert!(load_apps(vec![Attempt::Unreadable]).is_empty());
}

#[test]
fn app_without_url_is_shown_with_an_empty_one() {
    let shown = populate_app_store(&vec![entry("a", None), entry("b", Some("http://x"))]);
    assert_eq!(shown.len(), 2);
    assert_eq!((shown[0].name.as_str(), shown[0].url.as_str()), ("a", ""));
    assert_eq!((shown[1].name.as_str(), shown[1].url.as_str()), ("b", "http://x"));
    assert_eq!(shown[1].command, "c");
    assert_eq!(shown[1].icon, "i");
}

#[test]
fn missing_colours_are_the_built_in_ones() {
    let entries = ThemeEntries {
        background: None,
        surface: Some("#000001".to_string()),
        interactive: None,
        interactive_pressed: None,
        text_primary: None,
        text_secondary: None,
        accent: Some("".to_string()),
        border: None,
        running_app: None,
        running_app_text: None,
    };
    let theme = entries.complete();
    assert_eq!(theme.surface, "#000001");
    assert_eq!(theme.accent, "");
    assert_eq!(theme.background, "#1a1a2e");
    assert_eq!(theme.interactive, "#0f3460");
    assert_eq!(theme.interactive_pressed, "#1a5276");
    assert_eq!(theme.text_primary, "#e0e0f0");
    assert_eq!(theme.text_secondary, "#a0a0b8");
    assert_eq!(theme.border, "#2a2a4a");
    assert_eq!(theme.running_app, "#1a3a1a");
    assert_eq!(theme.running_app_text, "#90ee90");
}
