use mochi::performer::Performer;
use mochi::replies::{
    capability_query_replies, dcs_replies, default_palette_color, device_report, get_capability, hex_decode,
    hex_encode, palette_query_reply,
};
use mochi::term::Term;

#[test]
fn test_hex_encode_decode() {
    assert_eq!(hex_encode("Tc"), "5463");
    assert_eq!(hex_decode("5463"), "Tc");
    assert_eq!(hex_encode("RGB"), "524742");
    assert_eq!(hex_decode("524742"), "RGB");
}

#[test]
fn test_default_palette_colors() {
    assert_eq!(default_palette_color(0), (0, 0, 0));
    assert_eq!(default_palette_color(1), (205, 0, 0));
    assert_eq!(default_palette_color(7), (229, 229, 229));
    assert_eq!(default_palette_color(9), (255, 0, 0));
    assert_eq!(default_palette_color(15), (255, 255, 255));
    assert_eq!(default_palette_color(232), (8, 8, 8));
}

#[test]
fn replies_palette_cube_and_grays() {
    assert_eq!(default_palette_color(16), (0, 0, 0));
    assert_eq!(default_palette_color(196), (255, 0, 0));
    assert_eq!(default_palette_color(67), (95, 135, 175));
    assert_eq!(default_palette_color(231), (255, 255, 255));
    assert_eq!(default_palette_color(255), (238, 238, 238));
}

#[test]
fn replies_palette_query() {
    assert_eq!(palette_query_reply(1), b"\x1b]4;1;rgb:cd/00/00\x1b\\".to_vec());
    assert_eq!(palette_query_reply(232), b"\x1b]4;232;rgb:08/08/08\x1b\\".to_vec());
}

#[test]
fn replies_hex_edge_cases() {
    assert_eq!(hex_decode("546"), "T");
    assert_eq!(hex_decode("zz54"), "T");
    assert_eq!(hex_decode("546F"), "To");
    assert_eq!(hex_decode("ff"), "\u{fffd}");
    assert_eq!(hex_encode("é"), "c3a9");
    assert_eq!(hex_decode(&hex_encode("héllo;")), "héllo;");
}

#[test]
fn replies_capabilities() {
    assert_eq!(get_capability("Tc"), Some(String::new()));
    assert_eq!(get_capability("RGB"), Some(String::new()));
    assert_eq!(get_capability("colors"), Some("256".to_string()));
    assert_eq!(get_capability("TN"), Some("xterm-256color".to_string()));
    assert_eq!(get_capability("kf5"), Some("\x1b[15~".to_string()));
    assert_eq!(get_capability("unknown"), None);
}

#[test]
fn replies_capability_query_found() {
    let replies = capability_query_replies(b"5463");
    assert_eq!(replies.len(), 1);
    assert_eq!(replies[0], b"\x1bP1+r5463=\x1b\\".to_vec());
}

#[test]
fn replies_capability_query_unknown() {
    let replies = capability_query_replies(b"756e6b6e6f776e");
    assert_eq!(replies, vec![b"\x1bP0+r756e6b6e6f776e\x1b\\".to_vec()]);
}

#[test]
fn replies_capability_query_several() {
    let query = format!("{};{}", hex_encode("TN"), hex_encode("Smulx"));
    let replies = capability_query_replies(query.as_bytes());
    assert_eq!(replies.len(), 2);
    let first = format!("\x1bP1+r544e={}\x1b\\", hex_encode("xterm-256color"));
    assert_eq!(replies[0], first.into_bytes());
    assert!(replies[1].starts_with(b"\x1bP1+r"));
    let empty = capability_query_replies(b"");
    assert_eq!(empty, vec![b"\x1bP0+r\x1b\\".to_vec()]);
    let trailing = capability_query_replies(b"4245;");
    assert_eq!(trailing.len(), 2);
    assert!(trailing[0].starts_with(b"\x1bP1+r4245="));
}

use mochi::action::Action;
use mochi::parser::Parser;

/// The replies a terminal sends for the device control strings in `input`.
fn query_replies(input: &[u8]) -> Vec<Vec<u8>> {
    let mut parser = Parser::new();
    let mut out = Vec::new();
    for action in parser.parse(input) {
        if let Action::DcsDispatch { intermediates, payload, .. } = action {
            out.extend(dcs_replies(&intermediates, &payload));
        }
    }
    out
}

/// A terminal of 24 rows and 80 columns fed with each of `inputs` in turn;
/// the replies it sends to the status requests of the last input.
fn terminal_replies(inputs: &[&[u8]]) -> Vec<Vec<u8>> {
    let mut term = Term::new(24, 80);
    let mut parser = Parser::new();
    let mut performer = Performer::new();
    let mut out = Vec::new();
    for input in inputs {
        out.clear();
        for action in parser.parse(input) {
            if let Action::CsiDispatch { params, intermediates, final_byte, private_marker } = &action {
                let cursor = &term.screen().cursor;
                if let Some(r) =
                    device_report(params, intermediates, *final_byte, *private_marker, cursor.row, cursor.col)
                {
                    out.push(r);
                }
            }
            performer.perform(&mut term, action);
        }
    }
    out
}

#[test]
fn test_xtgettcap_tc() {
    let responses = query_replies(b"\x1bP+q5463\x1b\\");
    assert_eq!(responses.len(), 1);
    let response = String::from_utf8_lossy(&responses[0]);
    assert!(response.starts_with("\x1bP1+r5463="));
}

#[test]
fn test_xtgettcap_unknown() {
    let responses = query_replies(b"\x1bP+q756e6b6e6f776e\x1b\\");
    assert_eq!(responses.len(), 1);
    let response = String::from_utf8_lossy(&responses[0]);
    assert!(response.starts_with("\x1bP0+r"));
}

#[test]
fn test_xtgettcap_expanded() {
    let hex_name = hex_encode("Smulx");
    let query = format!("\x1bP+q{}\x1b\\", hex_name);
    let responses = query_replies(query.as_bytes());
    assert_eq!(responses.len(), 1);
    let response = String::from_utf8_lossy(&responses[0]);
    assert!(response.starts_with("\x1bP1+r"));

    let hex_name = hex_encode("BE");
    let query = format!("\x1bP+q{}\x1b\\", hex_name);
    let responses = query_replies(query.as_bytes());
    assert_eq!(responses.len(), 1);
    let response = String::from_utf8_lossy(&responses[0]);
    assert!(response.starts_with("\x1bP1+r"));
}

#[test]
fn test_da1_response() {
    let responses = terminal_replies(&[b"\x1b[?c"]);
    assert_eq!(responses.len(), 1);
    let response = String::from_utf8_lossy(&responses[0]);
    assert!(response.starts_with("\x1b[?62;"));
    assert_eq!(response, "\x1b[?62;1;2;4;6;7;8;9;15;22c");
}

#[test]
fn test_da2_response() {
    let responses = terminal_replies(&[b"\x1b[>c"]);
    assert_eq!(responses.len(), 1);
    assert_eq!(String::from_utf8_lossy(&responses[0]), "\x1b[>0;136;0c");
}

#[test]
fn test_xtversion_response() {
    let responses = terminal_replies(&[b"\x1b[>q"]);
    assert_eq!(responses.len(), 1);
    assert_eq!(String::from_utf8_lossy(&responses[0]), "\x1bP>|mochi(0.1.0)\x1b\\");
}

#[test]
fn test_decxcpr_extended_cursor_report() {
    let responses = terminal_replies(&[b"\x1b[5;10H", b"\x1b[?6n"]);
    assert_eq!(responses.len(), 1);
    assert_eq!(String::from_utf8_lossy(&responses[0]), "\x1b[?5;10R");
}

#[test]
fn device_status_and_cursor_position_reports() {
    assert_eq!(terminal_replies(&[b"\x1b[5n"]), vec![b"\x1b[0n".to_vec()]);
    assert_eq!(terminal_replies(&[b"\x1b[12;34H", b"\x1b[6n"]), vec![b"\x1b[12;34R".to_vec()]);
    assert_eq!(terminal_replies(&[b"\x1b[6n"]), vec![b"\x1b[1;1R".to_vec()]);
    assert!(terminal_replies(&[b"\x1b[n"]).is_empty());
    assert!(terminal_replies(&[b"\x1b[7n"]).is_empty());
}

#[test]
fn tertiary_attributes_and_keyboard_flags() {
    assert_eq!(terminal_replies(&[b"\x1b[=c"]), vec![b"\x1bP!|00000000\x1b\\".to_vec()]);
    assert_eq!(terminal_replies(&[b"\x1b[>u"]), vec![b"\x1b[?0u".to_vec()]);
    assert!(terminal_replies(&[b"\x1b[c"]).is_empty());
    assert!(terminal_replies(&[b"\x1b[2J"]).is_empty());
}

#[test]
fn device_control_strings_other_than_capability_queries_get_no_reply() {
    assert!(query_replies(b"\x1bP$qm\x1b\\").is_empty());
    assert!(query_replies(b"\x1bPq5463\x1b\\").is_empty());
    assert!(dcs_replies(b"++", b"5463").is_empty());
    assert_eq!(dcs_replies(b"+", b"5463"), capability_query_replies(b"5463"));
}
