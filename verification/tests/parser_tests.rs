use mochi::action::{Action, CsiAction};
use mochi::params::Params;
use mochi::parser::Parser;

fn parse_all(input: &[u8]) -> Vec<Action> {
    let mut parser = Parser::new();
    parser.parse(input)
}

fn printed(actions: &[Action]) -> Vec<char> {
    actions
        .iter()
        .filter_map(|a| if let Action::Print(c) = a { Some(*c) } else { None })
        .collect()
}

#[test]
fn test_params_basic() {
    let mut params = Params::new();
    params.push(1);
    params.push(2);
    params.push(3);

    assert_eq!(params.len(), 3);
    assert_eq!(params.get(0), Some(1));
    assert_eq!(params.get(1), Some(2));
    assert_eq!(params.get(2), Some(3));
    assert_eq!(params.get(3), None);
}

#[test]
fn test_params_defaults() {
    let params = Params::new();
    assert_eq!(params.get_or(0, 1), 1);
    assert_eq!(params.get_nonzero_or(0, 5), 5);
}

#[test]
fn test_params_zero_default() {
    let mut params = Params::new();
    params.push(0);
    assert_eq!(params.get_nonzero_or(0, 5), 5);
}

#[test]
fn test_subparams() {
    let mut params = Params::new();
    params.push(38);
    params.push_subparam(2);
    params.push_subparam(255);
    params.push_subparam(128);
    params.push_subparam(64);

    assert_eq!(params.get(0), Some(38));
    let subs = params.get_subparams(0).unwrap();
    assert_eq!(subs, &[2, 255, 128, 64]);
}

#[test]
fn params_limit_is_kept() {
    let mut params = Params::new();
    for i in 0..40 {
        params.push(i);
    }
    assert_eq!(params.len(), 32);
    assert_eq!(params.get(31), Some(31));
    assert_eq!(params.iter().len(), 32);
    params.clear();
    assert!(params.is_empty());
}

#[test]
fn test_csi_param() {
    let csi = CsiAction { params: vec![5, 10], intermediates: vec![], final_byte: b'H', private: false };

    assert_eq!(csi.param(0, 1), 5);
    assert_eq!(csi.param(1, 1), 10);
    assert_eq!(csi.param(2, 99), 99);
}

#[test]
fn test_csi_param_or_one() {
    let csi = CsiAction { params: vec![0, 5], intermediates: vec![], final_byte: b'A', private: false };

    assert_eq!(csi.param_or_one(0), 1);
    assert_eq!(csi.param_or_one(1), 5);
    assert_eq!(csi.param_or_one(2), 1);
}

#[test]
fn test_print_ascii() {
    let actions = parse_all(b"Hello");
    assert_eq!(actions.len(), 5);
    assert!(matches!(actions[0], Action::Print('H')));
    assert!(matches!(actions[4], Action::Print('o')));
}

#[test]
fn test_control_characters() {
    let actions = parse_all(b"\x07\x08\x09\x0A\x0D");
    assert_eq!(actions.len(), 5);
    assert!(matches!(actions[0], Action::Execute(0x07)));
    assert!(matches!(actions[1], Action::Execute(0x08)));
    assert!(matches!(actions[2], Action::Execute(0x09)));
    assert!(matches!(actions[3], Action::Execute(0x0A)));
    assert!(matches!(actions[4], Action::Execute(0x0D)));
}

#[test]
fn test_csi_cursor_up() {
    let actions = parse_all(b"\x1b[5A");
    assert_eq!(actions.len(), 1);
    if let Action::CsiDispatch { params, final_byte, .. } = &actions[0] {
        assert_eq!(*final_byte, b'A');
        assert_eq!(params.get(0), Some(5));
    } else {
        panic!("Expected CsiDispatch");
    }
}

#[test]
fn test_csi_cursor_position() {
    let actions = parse_all(b"\x1b[10;20H");
    assert_eq!(actions.len(), 1);
    if let Action::CsiDispatch { params, final_byte, .. } = &actions[0] {
        assert_eq!(*final_byte, b'H');
        assert_eq!(params.get(0), Some(10));
        assert_eq!(params.get(1), Some(20));
    } else {
        panic!("Expected CsiDispatch");
    }
}

#[test]
fn test_csi_private_mode() {
    let actions = parse_all(b"\x1b[?25h");
    assert_eq!(actions.len(), 1);
    if let Action::CsiDispatch { params, final_byte, private_marker, .. } = &actions[0] {
        assert_eq!(*final_byte, b'h');
        assert_eq!(*private_marker, Some(b'?'));
        assert_eq!(params.get(0), Some(25));
    } else {
        panic!("Expected CsiDispatch");
    }
}

#[test]
fn test_csi_sgr() {
    let actions = parse_all(b"\x1b[1;31;42m");
    assert_eq!(actions.len(), 1);
    if let Action::CsiDispatch { params, final_byte, .. } = &actions[0] {
        assert_eq!(*final_byte, b'm');
        assert_eq!(params.get(0), Some(1));
        assert_eq!(params.get(1), Some(31));
        assert_eq!(params.get(2), Some(42));
    } else {
        panic!("Expected CsiDispatch");
    }
}

#[test]
fn test_esc_sequence() {
    let actions = parse_all(b"\x1b7");
    assert_eq!(actions.len(), 1);
    if let Action::EscDispatch { final_byte, .. } = &actions[0] {
        assert_eq!(*final_byte, b'7');
    } else {
        panic!("Expected EscDispatch");
    }
}

#[test]
fn parser_test_osc_title() {
    let actions = parse_all(b"\x1b]0;My Title\x07");
    assert_eq!(actions.len(), 1);
    if let Action::OscDispatch { command, payload } = &actions[0] {
        assert_eq!(*command, 0);
        assert_eq!(payload, "My Title");
    } else {
        panic!("Expected OscDispatch");
    }
}

#[test]
fn test_osc_with_st() {
    let actions = parse_all(b"\x1b]2;Window Title\x1b\\");
    assert_eq!(actions.len(), 1);
    if let Action::OscDispatch { command, payload } = &actions[0] {
        assert_eq!(*command, 2);
        assert_eq!(payload, "Window Title");
    } else {
        panic!("Expected OscDispatch");
    }
}

#[test]
fn test_utf8_basic() {
    let actions = parse_all("Hello \u{4e16}\u{754c}".as_bytes());
    let chars = printed(&actions);
    assert_eq!(chars, vec!['H', 'e', 'l', 'l', 'o', ' ', '\u{4e16}', '\u{754c}']);
}

#[test]
fn test_chunk_boundary() {
    let mut parser = Parser::new();
    let mut actions = Vec::new();

    actions.extend(parser.parse(b"\x1b["));
    assert!(actions.is_empty());

    actions.extend(parser.parse(b"5"));
    assert!(actions.is_empty());

    actions.extend(parser.parse(b"A"));
    assert_eq!(actions.len(), 1);

    if let Action::CsiDispatch { params, final_byte, .. } = &actions[0] {
        assert_eq!(*final_byte, b'A');
        assert_eq!(params.get(0), Some(5));
    }
}

#[test]
fn test_cancel_sequence() {
    let actions = parse_all(b"\x1b[\x18Hello");
    let prints = printed(&actions);
    assert_eq!(prints, vec!['H', 'e', 'l', 'l', 'o']);
}

#[test]
fn test_empty_params() {
    let actions = parse_all(b"\x1b[;H");
    assert_eq!(actions.len(), 1);
    if let Action::CsiDispatch { params, final_byte, .. } = &actions[0] {
        assert_eq!(*final_byte, b'H');
        assert_eq!(params.get(0), Some(0));
    }
}

#[test]
fn parser_malformed_utf8_prints_replacement() {
    let actions = parse_all(b"\xC0A\xE0\x80\x80\xE4\xB8");
    let chars = printed(&actions);
    assert_eq!(chars, vec!['\u{fffd}', 'A', '\u{fffd}']);
    let actions = parse_all(b"\xE4\xB8Z");
    assert_eq!(printed(&actions), vec!['\u{fffd}', 'Z']);
}

#[test]
fn parser_c1_controls() {
    let actions = parse_all(b"\x9b2J\x84");
    assert_eq!(actions.len(), 2);
    assert!(matches!(&actions[0], Action::CsiDispatch { final_byte: b'J', .. }));
    assert!(matches!(&actions[1], Action::EscDispatch { final_byte: b'D', .. }));
}

#[test]
fn parser_dcs_payload_and_reset() {
    let actions = parse_all(b"\x1bP1$qm\x1b\\");
    assert_eq!(actions.len(), 1);
    if let Action::DcsDispatch { payload, final_byte, params, .. } = &actions[0] {
        assert_eq!(payload, &b"m".to_vec());
        assert_eq!(*final_byte, 0);
        assert_eq!(params.get(0), Some(1));
    } else {
        panic!("Expected DcsDispatch");
    }
    let mut parser = Parser::new();
    assert!(parser.parse(b"\x1b[12").is_empty());
    parser.reset();
    assert_eq!(printed(&parser.parse(b"x")), vec!['x']);
}

#[test]
fn parser_large_numbers_saturate() {
    let actions = parse_all(b"\x1b[99999999A");
    if let Action::CsiDispatch { params, .. } = &actions[0] {
        assert_eq!(params.get(0), Some(65535));
    } else {
        panic!("Expected CsiDispatch");
    }
}

#[test]
fn parsing_yields_at_most_two_actions_per_byte() {
    let inputs: [&[u8]; 5] = [
        b"\xe2\x82\xac\xf0\x9f\x98\x80",
        b"\xe2\x82A\xc3\x28\xf0\x9f\x98",
        b"\x1b[1;2\xe2\x82\xac\x07\x80\x9b",
        b"\xc3\x1b[5mB\xe4\xb8",
        b"\xff\xfe\xc0\xaf\xed\xa0\x80",
    ];
    let mut parser = Parser::new();
    for input in inputs {
        let actions = parser.parse(input);
        assert!(actions.len() <= 2 * input.len());
    }
    // A lead byte cut off by an escape prints the replacement character and
    // then starts the sequence: two actions for one byte.
    let mut parser = Parser::new();
    assert!(parser.parse(b"\xc3").is_empty());
    let actions = parser.parse(b"\x07");
    assert_eq!(actions.len(), 2);
}
