use mochi::cell::Cell;
use mochi::clipboard::selected_text;
use mochi::grid::Grid;
use mochi::input::{Key, Modifiers, NamedKey};
use mochi::line::Line;
use mochi::scrollback::Scrollback;
use mochi::selection::{Selection, SelectionPoint, SelectionType};
use mochi::input::MouseButton;
use mochi::shortcuts::{
    command_for_key, key_input_command, mouse_button_action, mouse_motion_action, paste_bytes, wheel_action, KeyCommand,
    MouseAction, WheelAction,
};
use mochi::split_pane::{NavDirection, SplitDirection};

const NONE: Modifiers = Modifiers { ctrl: false, alt: false, shift: false };
const CTRL: Modifiers = Modifiers { ctrl: true, alt: false, shift: false };
const CTRL_SHIFT: Modifiers = Modifiers { ctrl: true, alt: false, shift: true };

fn chr(s: &str) -> Key {
    Key::Character(s.to_string())
}

fn press(key: &Key, mods: Modifiers) -> KeyCommand {
    key_input_command(true, key, mods, false, true, None, false)
}

#[test]
fn shortcut_copy_paste_either_case() {
    assert_eq!(press(&chr("c"), CTRL_SHIFT), KeyCommand::Copy);
    assert_eq!(press(&chr("C"), CTRL_SHIFT), KeyCommand::Copy);
    assert_eq!(press(&chr("V"), CTRL_SHIFT), KeyCommand::Paste);
    assert_eq!(press(&chr("f"), CTRL_SHIFT), KeyCommand::Find);
    assert_eq!(press(&chr("R"), CTRL_SHIFT), KeyCommand::ReloadConfig);
}

#[test]
fn shortcut_tabs_and_panes() {
    assert_eq!(press(&chr("T"), CTRL_SHIFT), KeyCommand::NewTab);
    assert_eq!(press(&chr("w"), CTRL_SHIFT), KeyCommand::CloseTab);
    assert_eq!(press(&chr("D"), CTRL_SHIFT), KeyCommand::SplitPane(SplitDirection::Horizontal));
    assert_eq!(press(&chr("e"), CTRL_SHIFT), KeyCommand::SplitPane(SplitDirection::Vertical));
    assert_eq!(press(&chr("Q"), CTRL_SHIFT), KeyCommand::ClosePane);
    assert_eq!(
        press(&Key::Named(NamedKey::ArrowLeft), CTRL_SHIFT),
        KeyCommand::FocusPane(NavDirection::Left)
    );
    assert_eq!(
        press(&Key::Named(NamedKey::ArrowDown), CTRL_SHIFT),
        KeyCommand::FocusPane(NavDirection::Down)
    );
}

#[test]
fn shortcut_new_tab_not_with_logo() {
    let cmd = key_input_command(true, &chr("t"), CTRL_SHIFT, true, true, None, false);
    assert_eq!(cmd, KeyCommand::Send(vec![0x14]));
}

#[test]
fn shortcut_release_and_no_tabs() {
    assert_eq!(key_input_command(false, &chr("c"), CTRL_SHIFT, false, true, None, false), KeyCommand::Ignore);
    assert_eq!(key_input_command(true, &chr("d"), CTRL_SHIFT, false, false, None, false), KeyCommand::Ignore);
    assert_eq!(key_input_command(true, &chr("w"), CTRL_SHIFT, false, false, None, false), KeyCommand::CloseTab);
}

#[test]
fn shortcut_control_characters_first() {
    let cmd = key_input_command(true, &chr("c"), CTRL, false, true, Some("\u{3}"), false);
    assert_eq!(cmd, KeyCommand::Send(vec![3]));
    let del = key_input_command(true, &Key::Named(NamedKey::Backspace), NONE, false, true, Some("\u{7f}"), false);
    assert_eq!(del, KeyCommand::Send(vec![0x7f]));
    let raw = key_input_command(true, &chr("\u{1}"), NONE, false, true, None, false);
    assert_eq!(raw, KeyCommand::Send(vec![1]));
}

#[test]
fn shortcut_zoom() {
    assert_eq!(press(&chr("="), CTRL_SHIFT), KeyCommand::ZoomIn);
    assert_eq!(press(&chr("+"), CTRL_SHIFT), KeyCommand::ZoomIn);
    assert_eq!(press(&chr("-"), CTRL_SHIFT), KeyCommand::ZoomOut);
    assert_eq!(press(&chr("0"), CTRL_SHIFT), KeyCommand::ZoomReset);
}

#[test]
fn shortcut_plain_keys_go_to_the_shell() {
    assert_eq!(press(&chr("a"), NONE), KeyCommand::Send(b"a".to_vec()));
    let up = key_input_command(true, &Key::Named(NamedKey::ArrowUp), NONE, false, true, None, true);
    assert_eq!(up, KeyCommand::Send(b"\x1bOA".to_vec()));
    assert_eq!(press(&Key::Unidentified, NONE), KeyCommand::Ignore);
}

#[test]
fn shortcut_with_given_lowercase() {
    let cmd = command_for_key(true, &chr("X"), "c", CTRL_SHIFT, false, true, None, false);
    assert_eq!(cmd, KeyCommand::Copy);
}

#[test]
fn wheel_scrolls_history_within_bounds() {
    assert_eq!(wheel_action(3, 0, 0, false, false, false, false, false, 0, 100), WheelAction::ScrollTo(3));
    assert_eq!(wheel_action(3, 0, 0, false, false, false, false, false, 99, 100), WheelAction::ScrollTo(100));
    assert_eq!(wheel_action(-5, 0, 0, false, false, false, false, false, 3, 100), WheelAction::ScrollTo(0));
    assert_eq!(wheel_action(-2, 0, 0, false, false, false, false, false, 3, 100), WheelAction::ScrollTo(1));
    assert_eq!(wheel_action(0, 0, 0, false, false, false, false, false, 3, 100), WheelAction::Ignore);
}

#[test]
fn wheel_reports_when_tracked() {
    assert_eq!(
        wheel_action(1, 4, 2, true, false, true, false, false, 0, 0),
        WheelAction::Send(b"\x1b[<64;5;3M".to_vec())
    );
    assert_eq!(
        wheel_action(-1, 0, 0, false, true, false, false, false, 0, 0),
        WheelAction::Send(vec![0x1b, b'[', b'M', 65 + 32, 33, 33])
    );
}

fn line_of(text: &str, cols: usize) -> Line {
    let mut line = Line::new(cols);
    for (i, c) in text.chars().enumerate() {
        line.set(i, Cell::new(c));
    }
    line
}

fn grid_of(rows: &[&str], cols: usize) -> Grid {
    let mut grid = Grid::new(rows.len(), cols);
    for (r, text) in rows.iter().enumerate() {
        *grid.line_mut(r) = line_of(text, cols);
    }
    grid
}

fn selection(start: (i64, usize), end: (i64, usize)) -> Selection {
    Selection {
        start: SelectionPoint::new(start.0, start.1),
        end: SelectionPoint::new(end.0, end.1),
        selection_type: SelectionType::Normal,
        active: false,
    }
}

#[test]
fn copy_spans_lines() {
    let grid = grid_of(&["hello", "world", ""], 10);
    let history = Scrollback::new(10);
    let text = selected_text(&selection((0, 1), (1, 3)), &grid, &history);
    assert_eq!(text, "ello\nwor");
}

#[test]
fn copy_reversed_selection_is_the_same() {
    let grid = grid_of(&["hello", "world", ""], 10);
    let history = Scrollback::new(10);
    let text = selected_text(&selection((1, 3), (0, 1)), &grid, &history);
    assert_eq!(text, "ello\nwor");
}

#[test]
fn copy_reaches_into_scrollback() {
    let grid = grid_of(&["hello", "world"], 10);
    let mut history = Scrollback::new(10);
    history.push(line_of("older", 10));
    history.push(line_of("old", 10));
    let text = selected_text(&selection((-2, 2), (0, 2)), &grid, &history);
    assert_eq!(text, "der\nold\nhe");
}

#[test]
fn copy_empty_selection_gives_nothing() {
    let grid = grid_of(&["hello"], 10);
    let history = Scrollback::new(10);
    assert_eq!(selected_text(&Selection::new(), &grid, &history), "");
}

#[test]
fn copy_trims_trailing_blank_rows() {
    let grid = grid_of(&["ab", "", ""], 10);
    let history = Scrollback::new(10);
    let text = selected_text(&selection((0, 0), (2, 5)), &grid, &history);
    assert_eq!(text, "ab");
}

#[test]
fn line_get_mut_and_cells_mut() {
    let mut line = Line::new(3);
    assert!(line.get_mut(3).is_none());
    if let Some(cell) = line.get_mut(1) {
        *cell = Cell::new('x');
    }
    assert_eq!(line.text_content(), " x");
    let cells = line.cells_mut();
    assert_eq!(cells.len(), 3);
    cells[0] = Cell::new('y');
    assert_eq!(line.text_content(), "yx");
}

use mochi::config::{effective_colors, osc52_setting_enabled, ColorScheme, ThemeName};
use mochi::tabs::{close_current_tab, tab_bar_click, tab_width, TabClick};

#[test]
fn tabs_width_is_shared_and_capped() {
    assert_eq!(tab_width(800, 2), 200);
    assert_eq!(tab_width(300, 4), 67);
    assert_eq!(tab_width(20, 3), 0);
    assert_eq!(tab_width(800, 0), 200);
}

#[test]
fn tabs_click_targets() {
    assert_eq!(tab_bar_click(410, 800, 2, 0), TabClick::NewTab);
    assert_eq!(tab_bar_click(50, 800, 2, 1), TabClick::Switch(0));
    assert_eq!(tab_bar_click(50, 800, 2, 0), TabClick::Nothing);
    assert_eq!(tab_bar_click(190, 800, 2, 1), TabClick::Close { index: 0, active: 0 });
    assert_eq!(tab_bar_click(500, 800, 2, 0), TabClick::Nothing);
    assert_eq!(tab_bar_click(190, 800, 1, 0), TabClick::Nothing);
    assert_eq!(tab_bar_click(10, 800, 0, 0), TabClick::Nothing);
}

#[test]
fn tabs_close_keeps_shown_tab_in_range() {
    assert_eq!(tab_bar_click(190, 800, 3, 2), TabClick::Close { index: 0, active: 1 });
    assert_eq!(tab_bar_click(190, 800, 3, 1), TabClick::Close { index: 0, active: 0 });
    assert_eq!(close_current_tab(1, 0), None);
    assert_eq!(close_current_tab(3, 2), Some(1));
    assert_eq!(close_current_tab(3, 0), Some(0));
}

#[test]
fn config_osc52_setting() {
    assert!(osc52_setting_enabled("1"));
    assert!(osc52_setting_enabled("true"));
    assert!(osc52_setting_enabled("TRUE"));
    assert!(!osc52_setting_enabled("yes"));
    assert!(!osc52_setting_enabled("0"));
}

#[test]
fn config_effective_colors() {
    let custom = ColorScheme::nord();
    let chosen = effective_colors(ThemeName::Custom, &custom);
    assert_eq!(chosen.foreground, custom.foreground);
    assert_eq!(chosen.ansi, custom.ansi);
    let dark = effective_colors(ThemeName::Dark, &custom);
    assert_eq!(dark.foreground, "#d4d4d4");
    let mochi = effective_colors(ThemeName::Mochi, &custom);
    assert_eq!(mochi.background, "#fff5f5");
}

#[test]
fn paste_plain_bracketed_and_empty() {
    assert_eq!(paste_bytes("", true), None);
    assert_eq!(paste_bytes("ls\n", false), Some(b"ls\n".to_vec()));
    assert_eq!(paste_bytes("ls\n", true), Some(b"\x1b[200~ls\n\x1b[201~".to_vec()));
    assert_eq!(paste_bytes("é", false), Some(vec![0xc3, 0xa9]));
}

#[test]
fn mouse_press_starts_selection_without_tracking() {
    let a = mouse_button_action(MouseButton::Left, true, 4, 2, false, 5, false, false, false);
    assert_eq!(a, MouseAction::StartSelection { row: -3, col: 4 });
    let release = mouse_button_action(MouseButton::Left, false, 4, 2, false, 0, false, false, false);
    assert_eq!(release, MouseAction::Ignore);
    let right = mouse_button_action(MouseButton::Right, true, 4, 2, false, 0, false, false, false);
    assert_eq!(right, MouseAction::Ignore);
}

#[test]
fn mouse_press_reported_when_tracking() {
    let a = mouse_button_action(MouseButton::Left, true, 0, 0, true, 0, true, false, false);
    assert_eq!(a, MouseAction::Send(b"\x1b[<0;1;1M".to_vec()));
    let r = mouse_button_action(MouseButton::Right, false, 9, 4, true, 0, true, false, false);
    assert_eq!(r, MouseAction::Send(b"\x1b[<2;10;5m".to_vec()));
    let other = mouse_button_action(MouseButton::Other, true, 0, 0, true, 0, true, false, false);
    assert_eq!(other, MouseAction::Ignore);
}

#[test]
fn mouse_motion_reports_only_when_asked() {
    assert_eq!(mouse_motion_action(1, 1, false, true, true, true, true), MouseAction::Ignore);
    assert_eq!(mouse_motion_action(1, 1, true, false, true, true, false), MouseAction::Ignore);
    assert_eq!(
        mouse_motion_action(1, 1, true, true, true, true, false),
        MouseAction::Send(b"\x1b[<35;2;2M".to_vec())
    );
    assert_eq!(
        mouse_motion_action(0, 0, true, false, false, false, true),
        MouseAction::Send(vec![0x1b, b'[', b'M', 35 + 32, 33, 33])
    );
}
