use mochi::config::{
    check_colors, check_dimensions, check_scrollback, ColorScheme, KeybindingsConfig, SecurityConfig, ThemeName,
};
use mochi::size::{PtySize, WindowSize};
use mochi::split::PaneRect;

#[test]
fn test_parse_hex() {
    assert_eq!(ColorScheme::parse_hex("#ff0000"), Some((255, 0, 0)));
    assert_eq!(ColorScheme::parse_hex("00ff00"), Some((0, 255, 0)));
    assert_eq!(ColorScheme::parse_hex("#invalid"), None);
}

#[test]
fn test_color_scheme_default() {
    let scheme = ColorScheme::default();
    assert_eq!(scheme.ansi.len(), 16);
}

#[test]
fn test_theme_from_str() {
    assert_eq!(ThemeName::from_str("dark"), Some(ThemeName::Dark));
    assert_eq!(ThemeName::from_str("light"), Some(ThemeName::Light));
    assert_eq!(ThemeName::from_str("solarized-dark"), Some(ThemeName::SolarizedDark));
    assert_eq!(ThemeName::from_str("dracula"), Some(ThemeName::Dracula));
    assert_eq!(ThemeName::from_str("nord"), Some(ThemeName::Nord));
    assert_eq!(ThemeName::from_str("invalid"), None);
}

#[test]
fn test_theme_next() {
    assert_eq!(ThemeName::Mochi.next(), ThemeName::Dark);
    assert_eq!(ThemeName::Dark.next(), ThemeName::Light);
    assert_eq!(ThemeName::Light.next(), ThemeName::SolarizedDark);
    assert_eq!(ThemeName::Nord.next(), ThemeName::Mochi);
}

#[test]
fn test_keybindings_default() {
    let kb = KeybindingsConfig::default();
    assert_eq!(kb.copy, "ctrl+shift+c");
    assert_eq!(kb.paste, "ctrl+shift+v");
    assert_eq!(kb.find, "ctrl+shift+f");
    assert_eq!(kb.reload_config, "ctrl+shift+r");
    assert_eq!(kb.toggle_theme, "ctrl+shift+t");
}

#[test]
fn config_hex_edge_cases() {
    assert_eq!(ColorScheme::parse_hex("##0A0b0C"), Some((10, 11, 12)));
    assert_eq!(ColorScheme::parse_hex("#+f+f+f"), None);
    assert_eq!(ColorScheme::parse_hex("aé123"), None);
    assert_eq!(ColorScheme::parse_hex("#12345"), None);
    assert_eq!(ColorScheme::parse_hex("#1234567"), None);
    assert_eq!(ColorScheme::parse_hex("#-12345"), None);
}

#[test]
fn config_theme_names_ignore_case() {
    assert_eq!(ThemeName::from_str("SolarizedLight"), Some(ThemeName::SolarizedLight));
    assert_eq!(ThemeName::from_str("MOCHI"), Some(ThemeName::Mochi));
    assert_eq!(ThemeName::from_lowercase_name("Custom"), None);
    assert_eq!(ThemeName::SolarizedDark.display_name(), "sol-dark");
    assert_eq!(ThemeName::all_names().len(), 8);
    assert_eq!(ThemeName::Custom.next(), ThemeName::Mochi);
}

#[test]
fn config_scheme_colors() {
    let mochi = ColorScheme::mochi();
    assert_eq!(mochi.background_rgb(), (255, 245, 245));
    assert_eq!(ColorScheme::nord().ansi_rgb(1), (191, 97, 106));
    assert_eq!(ColorScheme::dark().ansi_rgb(99), (128, 128, 128));
    let mut broken = ColorScheme::light();
    broken.cursor = "nope".to_string();
    assert_eq!(broken.cursor_rgb(), (255, 255, 255));
    assert_eq!(ColorScheme::dracula().foreground_rgb(), (248, 248, 242));
    assert_eq!(ColorScheme::solarized_light().selection_rgb(), (238, 232, 213));
    assert_eq!(ColorScheme::solarized_dark().background_rgb(), (0, 43, 54));
}

#[test]
fn config_checks() {
    assert!(check_dimensions(80, 24).is_ok());
    let e = check_dimensions(5, 24).unwrap_err();
    assert_eq!(e.message, "Window columns must be at least 10");
    assert_eq!(e.field.as_deref(), Some("dimensions"));
    assert_eq!(check_dimensions(80, 2).unwrap_err().message, "Window rows must be at least 3");
    assert!(check_scrollback(10_000_000).is_ok());
    assert_eq!(check_scrollback(10_000_001).unwrap_err().field.as_deref(), Some("scrollback_lines"));
    let mut scheme = ColorScheme::default();
    assert!(check_colors(&scheme).is_ok());
    scheme.ansi[3] = "bad".to_string();
    let e = check_colors(&scheme).unwrap_err();
    assert_eq!(e.message, "Invalid hex color 'bad'. Expected format: #RRGGBB");
    assert_eq!(e.field.as_deref(), Some("colors.ansi[3]"));
    let sec = SecurityConfig::default();
    assert!(!sec.osc52_clipboard);
    assert_eq!(sec.osc52_max_size, 100000);
}

#[test]
fn test_window_size_new() {
    let size = WindowSize::new(24, 80);
    assert_eq!(size.rows, 24);
    assert_eq!(size.cols, 80);
    assert_eq!(size.pixel_width, 0);
    assert_eq!(size.pixel_height, 0);
}

#[test]
fn test_window_size_with_pixels() {
    let size = WindowSize::with_pixels(24, 80, 640, 480);
    assert_eq!(size.rows, 24);
    assert_eq!(size.cols, 80);
    assert_eq!(size.pixel_width, 640);
    assert_eq!(size.pixel_height, 480);
}

#[test]
fn test_pty_size() {
    let size = PtySize::new(120, 40);
    assert_eq!(size.cols, 120);
    assert_eq!(size.rows, 40);
}

#[test]
fn test_pane_rect_contains() {
    let rect = PaneRect::new(10, 20, 100, 50);
    assert!(rect.contains(10, 20));
    assert!(rect.contains(50, 40));
    assert!(!rect.contains(9, 20));
    assert!(!rect.contains(10, 70));
    assert!(!rect.contains(110, 20));
}
