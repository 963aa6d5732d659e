use mochi::input::{
    encode_bracketed_paste, encode_focus, encode_key, encode_mouse, encode_mouse_event, Key, Modifiers, MouseButton,
    MouseEvent, NamedKey,
};

const NONE: Modifiers = Modifiers { ctrl: false, alt: false, shift: false };
const CONTROL: Modifiers = Modifiers { ctrl: true, alt: false, shift: false };
const ALT: Modifiers = Modifiers { ctrl: false, alt: true, shift: false };

#[test]
fn test_encode_character() {
    let key = Key::Character("a".to_string());
    let result = encode_key(&key, NONE, false, false);
    assert_eq!(result, Some(b"a".to_vec()));
}

#[test]
fn test_encode_ctrl_c() {
    let key = Key::Character("c".to_string());
    let result = encode_key(&key, CONTROL, false, false);
    assert_eq!(result, Some(vec![3]));
}

#[test]
fn test_encode_alt_a() {
    let key = Key::Character("a".to_string());
    let result = encode_key(&key, ALT, false, false);
    assert_eq!(result, Some(vec![0x1b, b'a']));
}

#[test]
fn test_encode_arrow_keys() {
    let key = Key::Named(NamedKey::ArrowUp);
    let result = encode_key(&key, NONE, false, false);
    assert_eq!(result, Some(b"\x1b[A".to_vec()));

    let result = encode_key(&key, NONE, true, false);
    assert_eq!(result, Some(b"\x1bOA".to_vec()));
}

#[test]
fn test_encode_function_keys() {
    let key = Key::Named(NamedKey::F1);
    let result = encode_key(&key, NONE, false, false);
    assert_eq!(result, Some(b"\x1bOP".to_vec()));

    let key = Key::Named(NamedKey::F5);
    let result = encode_key(&key, NONE, false, false);
    assert_eq!(result, Some(b"\x1b[15~".to_vec()));
}

#[test]
fn test_encode_mouse_sgr() {
    let result = encode_mouse_event(0, 10, 20, true, true);
    assert_eq!(result, b"\x1b[<0;11;21M".to_vec());

    let result = encode_mouse_event(0, 10, 20, false, true);
    assert_eq!(result, b"\x1b[<0;11;21m".to_vec());
}

#[test]
fn test_bracketed_paste() {
    let result = encode_bracketed_paste("hello");
    assert_eq!(result, b"\x1b[200~hello\x1b[201~".to_vec());
}

#[test]
fn input_test_focus_events() {
    assert_eq!(encode_focus(true), b"\x1b[I".to_vec());
    assert_eq!(encode_focus(false), b"\x1b[O".to_vec());
}

#[test]
fn test_encode_direct_control_char() {
    let key = Key::Character("\x03".to_string());
    let result = encode_key(&key, NONE, false, false);
    assert_eq!(result, Some(vec![3]));

    let key = Key::Character("\x01".to_string());
    let result = encode_key(&key, NONE, false, false);
    assert_eq!(result, Some(vec![1]));
}

#[test]
fn input_modified_keys() {
    let shift_ctrl = Modifiers { ctrl: true, alt: false, shift: true };
    assert_eq!(encode_key(&Key::Named(NamedKey::ArrowLeft), shift_ctrl, false, false), Some(b"\x1b[1;6D".to_vec()));
    assert_eq!(encode_key(&Key::Named(NamedKey::Delete), ALT, false, false), Some(b"\x1b[3;3~".to_vec()));
    assert_eq!(encode_key(&Key::Named(NamedKey::F12), NONE, false, false), Some(b"\x1b[24~".to_vec()));
    assert_eq!(encode_key(&Key::Named(NamedKey::Tab), Modifiers { ctrl: false, alt: false, shift: true }, false, false), Some(b"\x1b[Z".to_vec()));
    assert_eq!(encode_key(&Key::Character("[".to_string()), CONTROL, false, false), Some(vec![27]));
    assert_eq!(encode_key(&Key::Character("\u{e9}".to_string()), NONE, false, false), Some("\u{e9}".as_bytes().to_vec()));
    assert_eq!(encode_key(&Key::Character(String::new()), NONE, false, false), None);
    assert_eq!(encode_key(&Key::Named(NamedKey::Other), NONE, false, false), None);
}

#[test]
fn input_mouse_classic_reports() {
    assert_eq!(encode_mouse(MouseEvent::Press(MouseButton::Left, 0, 0), false, false, false), Some(vec![0x1b, b'[', b'M', 32, 33, 33]));
    assert_eq!(encode_mouse(MouseEvent::Release(MouseButton::Right, 300, 1), false, false, false), Some(vec![0x1b, b'[', b'M', 35, 255, 34]));
    assert_eq!(encode_mouse(MouseEvent::Move(1, 1), true, false, false), None);
    assert_eq!(encode_mouse(MouseEvent::Scroll { x: 0, y: 0, delta: 1 }, true, false, false), Some(b"\x1b[<64;1;1M".to_vec()));
    assert_eq!(encode_mouse(MouseEvent::Press(MouseButton::Other, 0, 0), true, false, false), None);
}
