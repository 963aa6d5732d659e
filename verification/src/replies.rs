//! Replies the terminal sends back to the application running in it:
//! capability queries (XTGETTCAP, from tmux and others), palette color
//! queries, and the hex encoding they use.

use vstd::prelude::*;
use vstd::string::*;
use vstd::utf8::{decode_utf8, encode_utf8, valid_utf8};

use crate::config::same_text;
use crate::params::{copy_of, Params};
use crate::text::{decimal, push_bytes, push_decimal, string_from_chars};
use crate::views::{lemma_views_push, views};

verus! {

/// The text of some bytes read as UTF-8, each invalid sequence replaced by
/// U+FFFD (`String::from_utf8_lossy`). Its value is named, not spelled out.
pub uninterp spec fn lossy_text(bytes: Seq<u8>) -> Seq<char>;

/// `String::from_utf8_lossy`: valid UTF-8 decodes to its text.
#[verifier::external_body]
fn utf8_lossy(bytes: &[u8]) -> (res: String)
    ensures
        res@ == lossy_text(bytes@),
        valid_utf8(bytes@) ==> res@ == decode_utf8(bytes@),
{
    String::from_utf8_lossy(bytes).into_owned()
}

/// The value of a byte read as a hex digit (`char::to_digit(16)` of the
/// byte taken as a character).
pub open spec fn hex_digit_value(b: u8) -> Option<u8> {
    if 48 <= b && b <= 57 {
        Some((b - 48) as u8)
    } else if 97 <= b && b <= 102 {
        Some((b - 87) as u8)
    } else if 65 <= b && b <= 70 {
        Some((b - 55) as u8)
    } else {
        None
    }
}

/// The bytes that pairs of hex digits stand for; a pair that is not two hex
/// digits, and a last odd byte, are skipped.
pub open spec fn hex_bytes(s: Seq<u8>) -> Seq<u8>
    decreases s.len(),
{
    if s.len() < 2 {
        Seq::empty()
    } else {
        let rest = hex_bytes(s.subrange(2, s.len() as int));
        match (hex_digit_value(s[0]), hex_digit_value(s[1])) {
            (Some(h), Some(l)) => seq![(h * 16 + l) as u8] + rest,
            _ => rest,
        }
    }
}

/// The lowercase hex digit for `n` (below 16), as an ASCII byte.
pub open spec fn hex_digit_byte(n: u8) -> u8 {
    if n < 10 { (48 + n) as u8 } else { (87 + n) as u8 }
}

/// Each byte as two lowercase hex digits, as ASCII bytes.
pub open spec fn hex_ascii(bytes: Seq<u8>) -> Seq<u8>
    decreases bytes.len(),
{
    if bytes.len() == 0 {
        Seq::empty()
    } else {
        seq![hex_digit_byte(bytes[0] / 16), hex_digit_byte(bytes[0] % 16)] + hex_ascii(
            bytes.subrange(1, bytes.len() as int),
        )
    }
}

/// The ASCII bytes as characters.
pub open spec fn ascii_chars(bytes: Seq<u8>) -> Seq<char> {
    Seq::new(bytes.len(), |i: int| bytes[i] as char)
}

fn hex_digit_of(b: u8) -> (res: Option<u8>)
    ensures
        res == hex_digit_value(b),
{
    if 48 <= b && b <= 57 {
        Some(b - 48)
    } else if 97 <= b && b <= 102 {
        Some(b - 87)
    } else if 65 <= b && b <= 70 {
        Some(b - 55)
    } else {
        None
    }
}

proof fn lemma_hex_bytes_step(s: Seq<u8>, i: int)
    requires
        0 <= i,
        i + 2 <= s.len(),
    ensures
        hex_bytes(s.subrange(i, s.len() as int)) == (match (hex_digit_value(s[i]), hex_digit_value(s[i + 1])) {
            (Some(h), Some(l)) => seq![(h * 16 + l) as u8],
            _ => Seq::<u8>::empty(),
        }) + hex_bytes(s.subrange(i + 2, s.len() as int)),
{
    let t = s.subrange(i, s.len() as int);
    assert(t.subrange(2, t.len() as int) =~= s.subrange(i + 2, s.len() as int));
    assert(t[0] == s[i]);
    assert(t[1] == s[i + 1]);
    match (hex_digit_value(s[i]), hex_digit_value(s[i + 1])) {
        (Some(h), Some(l)) => {},
        _ => {
            assert(Seq::<u8>::empty() + hex_bytes(s.subrange(i + 2, s.len() as int)) =~= hex_bytes(
                s.subrange(i + 2, s.len() as int),
            ));
        },
    }
}

/// The bytes the hex digit pairs of `hex` stand for.
fn hex_decode_bytes(hex: &[u8]) -> (res: Vec<u8>)
    ensures
        res@ == hex_bytes(hex@),
{
    let mut out: Vec<u8> = Vec::new();
    let mut i: usize = 0;
    proof {
        assert(hex@.subrange(0, hex@.len() as int) =~= hex@);
        assert(out@ + hex_bytes(hex@) =~= hex_bytes(hex@));
    }
    while hex.len() - i >= 2
        invariant
            i <= hex@.len(),
            out@ + hex_bytes(hex@.subrange(i as int, hex@.len() as int)) == hex_bytes(hex@),
        decreases hex.len() - i,
    {
        proof {
            lemma_hex_bytes_step(hex@, i as int);
        }
        let high = hex_digit_of(hex[i]);
        let low = hex_digit_of(hex[i + 1]);
        match (high, low) {
            (Some(h), Some(l)) => {
                let ghost pre = out@;
                out.push(h * 16 + l);
                proof {
                    assert(out@ =~= pre + seq![(h * 16 + l) as u8]);
                    assert(pre + seq![(h * 16 + l) as u8] + hex_bytes(hex@.subrange(i + 2, hex@.len() as int))
                        =~= pre + (seq![(h * 16 + l) as u8] + hex_bytes(hex@.subrange(i + 2, hex@.len() as int))));
                }
            },
            _ => {},
        }
        i = i + 2;
    }
    proof {
        assert(hex_bytes(hex@.subrange(i as int, hex@.len() as int)) =~= Seq::<u8>::empty());
        assert(out@ + Seq::<u8>::empty() =~= out@);
    }
    out
}

/// Decode hex digit pairs ("546F" gives "To"); pairs that are not hex
/// digits are skipped, and bytes that are not UTF-8 become U+FFFD.
pub fn hex_decode(hex: &str) -> (res: String)
    ensures
        res@ == lossy_text(hex_bytes(encode_utf8(hex@))),
        valid_utf8(hex_bytes(encode_utf8(hex@))) ==> res@ == decode_utf8(hex_bytes(encode_utf8(hex@))),
{
    let bytes = hex_decode_bytes(hex.as_bytes());
    utf8_lossy(bytes.as_slice())
}

fn push_hex_byte(out: &mut Vec<u8>, b: u8)
    ensures
        final(out)@ == old(out)@ + seq![hex_digit_byte(b / 16), hex_digit_byte(b % 16)],
{
    let high = b / 16;
    let low = b % 16;
    out.push(if high < 10 { 48 + high } else { 87 + high });
    out.push(if low < 10 { 48 + low } else { 87 + low });
    proof {
        assert(final(out)@ =~= old(out)@ + seq![hex_digit_byte(b / 16), hex_digit_byte(b % 16)]);
    }
}

/// Append each byte of `bytes` as two lowercase hex digits.
fn push_hex(out: &mut Vec<u8>, bytes: &[u8])
    ensures
        final(out)@ == old(out)@ + hex_ascii(bytes@),
{
    let mut i: usize = 0;
    proof {
        assert(bytes@.subrange(0, bytes@.len() as int) =~= bytes@);
    }
    while i < bytes.len()
        invariant
            i <= bytes@.len(),
            out@ + hex_ascii(bytes@.subrange(i as int, bytes@.len() as int)) == old(out)@ + hex_ascii(bytes@),
        decreases bytes.len() - i,
    {
        let ghost pre = out@;
        let ghost rest = bytes@.subrange(i as int, bytes@.len() as int);
        proof {
            assert(rest.subrange(1, rest.len() as int) =~= bytes@.subrange(i + 1, bytes@.len() as int));
            assert(rest[0] == bytes@[i as int]);
        }
        push_hex_byte(out, bytes[i]);
        proof {
            assert(out@ + hex_ascii(bytes@.subrange(i + 1, bytes@.len() as int)) =~= pre + hex_ascii(rest));
        }
        i = i + 1;
    }
    proof {
        assert(bytes@.subrange(i as int, bytes@.len() as int) =~= Seq::<u8>::empty());
        assert(out@ + Seq::<u8>::empty() =~= out@);
    }
}

/// Encode the UTF-8 bytes of `s` as lowercase hex ("To" gives "546f").
pub fn hex_encode(s: &str) -> (res: String)
    ensures
        res@ == ascii_chars(hex_ascii(encode_utf8(s@))),
{
    let mut digits: Vec<u8> = Vec::new();
    push_hex(&mut digits, s.as_bytes());
    let mut text: Vec<char> = Vec::new();
    let mut i: usize = 0;
    while i < digits.len()
        invariant
            i <= digits@.len(),
            text@ == ascii_chars(digits@.subrange(0, i as int)),
        decreases digits.len() - i,
    {
        text.push(digits[i] as char);
        proof {
            assert(text@ =~= ascii_chars(digits@.subrange(0, i + 1)));
        }
        i = i + 1;
    }
    proof {
        assert(digits@.subrange(0, i as int) =~= digits@);
    }
    crate::text::string_from_chars(&text)
}

/// Decoding the hex digits of some bytes gives the bytes back.
pub proof fn lemma_hex_roundtrip(bytes: Seq<u8>)
    ensures
        hex_bytes(hex_ascii(bytes)) == bytes,
    decreases bytes.len(),
{
    if bytes.len() > 0 {
        let rest = bytes.subrange(1, bytes.len() as int);
        lemma_hex_roundtrip(rest);
        let h = hex_ascii(bytes);
        let b = bytes[0];
        assert(h.subrange(2, h.len() as int) =~= hex_ascii(rest));
        assert(hex_digit_value(hex_digit_byte(b / 16)) == Some((b / 16) as u8));
        assert(hex_digit_value(hex_digit_byte(b % 16)) == Some((b % 16) as u8));
        assert(((b / 16) as u8) * 16 + ((b % 16) as u8) == b);
        assert(bytes =~= seq![b] + rest);
    } else {
        assert(hex_ascii(bytes) =~= Seq::<u8>::empty());
    }
}

proof fn lemma_hex_ascii_small(bytes: Seq<u8>)
    ensures
        forall|i: int| 0 <= i < hex_ascii(bytes).len() ==> #[trigger] hex_ascii(bytes)[i] < 128,
        hex_ascii(bytes).len() == 2 * bytes.len(),
    decreases bytes.len(),
{
    if bytes.len() > 0 {
        let rest = bytes.subrange(1, bytes.len() as int);
        lemma_hex_ascii_small(rest);
        let h = hex_ascii(bytes);
        assert forall|i: int| 0 <= i < h.len() implies #[trigger] h[i] < 128 by {
            if i >= 2 {
                assert(h[i] == hex_ascii(rest)[i - 2]);
            }
        }
    }
}

/// Decoding what `hex_encode` gives returns the text that was encoded: the
/// bytes come back, and they are valid UTF-8 for that text.
pub proof fn lemma_hex_text_roundtrip(s: Seq<char>)
    ensures
        hex_bytes(encode_utf8(ascii_chars(hex_ascii(encode_utf8(s))))) == encode_utf8(s),
        valid_utf8(encode_utf8(s)),
        decode_utf8(encode_utf8(s)) == s,
{
    let h = hex_ascii(encode_utf8(s));
    lemma_hex_ascii_small(encode_utf8(s));
    let chars = ascii_chars(h);
    assert(vstd::utf8::is_ascii_chars(chars)) by {
        assert forall|i: int| 0 <= i < chars.len() implies '\0' <= #[trigger] chars[i] <= '\u{7f}' by {
            assert(h[i] < 128);
            assert(chars[i] == h[i] as char);
        }
    }
    vstd::utf8::is_ascii_chars_encode_utf8(chars);
    assert(encode_utf8(chars) =~= h) by {
        assert forall|i: int| 0 <= i < h.len() implies encode_utf8(chars)[i] == h[i] by {
            assert(chars[i] as u8 == encode_utf8(chars)[i]);
            assert(chars[i] == h[i] as char);
            assert(h[i] < 128);
        }
    }
    lemma_hex_roundtrip(encode_utf8(s));
    vstd::utf8::encode_utf8_valid_utf8(s);
    vstd::utf8::encode_utf8_decode_utf8(s);
}

/// The terminal capabilities answered to capability queries, by name.
pub open spec fn capability(name: Seq<char>) -> Option<Seq<char>> {
    if name == "Tc"@ || name == "RGB"@ {
        Some(""@)
    } else if name == "colors"@ {
        Some("256"@)
    } else if name == "TN"@ || name == "name"@ {
        Some("xterm-256color"@)
    } else if name == "Ss"@ {
        Some("\x1b[%p1%d q"@)
    } else if name == "Se"@ {
        Some("\x1b[2 q"@)
    } else if name == "Sync"@ {
        Some(""@)
    } else if name == "Smol"@ {
        Some("\x1b[53m"@)
    } else if name == "Rmol"@ {
        Some("\x1b[55m"@)
    } else if name == "Setulc"@ {
        Some("\x1b[58:2:%p1%{65536}%/%d:%p1%{256}%/%{255}%&%d:%p1%{255}%&%dm"@)
    } else if name == "Smulx"@ {
        Some("\x1b[4:%p1%dm"@)
    } else if name == "smxx"@ {
        Some("\x1b[9m"@)
    } else if name == "rmxx"@ {
        Some("\x1b[29m"@)
    } else if name == "Ms"@ {
        Some("\x1b]52;%p1%s;%p2%s\x07"@)
    } else if name == "fd"@ {
        Some("\x1b[?1004l"@)
    } else if name == "fe"@ {
        Some("\x1b[?1004h"@)
    } else if name == "BE"@ {
        Some("\x1b[?2004h"@)
    } else if name == "BD"@ {
        Some("\x1b[?2004l"@)
    } else if name == "PS"@ {
        Some("\x1b[200~"@)
    } else if name == "PE"@ {
        Some("\x1b[201~"@)
    } else if name == "XM"@ {
        Some(""@)
    } else if name == "cup"@ {
        Some("\x1b[%i%p1%d;%p2%dH"@)
    } else if name == "clear"@ {
        Some("\x1b[H\x1b[2J"@)
    } else if name == "kbs"@ {
        Some("\x7f"@)
    } else if name == "kcuu1"@ {
        Some("\x1bOA"@)
    } else if name == "kcud1"@ {
        Some("\x1bOB"@)
    } else if name == "kcuf1"@ {
        Some("\x1bOC"@)
    } else if name == "kcub1"@ {
        Some("\x1bOD"@)
    } else if name == "khome"@ {
        Some("\x1bOH"@)
    } else if name == "kend"@ {
        Some("\x1bOF"@)
    } else if name == "knp"@ {
        Some("\x1b[6~"@)
    } else if name == "kpp"@ {
        Some("\x1b[5~"@)
    } else if name == "kdch1"@ {
        Some("\x1b[3~"@)
    } else if name == "kich1"@ {
        Some("\x1b[2~"@)
    } else if name == "kf1"@ {
        Some("\x1bOP"@)
    } else if name == "kf2"@ {
        Some("\x1bOQ"@)
    } else if name == "kf3"@ {
        Some("\x1bOR"@)
    } else if name == "kf4"@ {
        Some("\x1bOS"@)
    } else if name == "kf5"@ {
        Some("\x1b[15~"@)
    } else if name == "kf6"@ {
        Some("\x1b[17~"@)
    } else if name == "kf7"@ {
        Some("\x1b[18~"@)
    } else if name == "kf8"@ {
        Some("\x1b[19~"@)
    } else if name == "kf9"@ {
        Some("\x1b[20~"@)
    } else if name == "kf10"@ {
        Some("\x1b[21~"@)
    } else if name == "kf11"@ {
        Some("\x1b[23~"@)
    } else if name == "kf12"@ {
        Some("\x1b[24~"@)
    } else if name == "acsc"@ {
        Some("``aaffggiijjkkllmmnnooppqqrrssttuuvvwwxxyyzz{{||}}~~"@)
    } else if name == "bold"@ {
        Some("\x1b[1m"@)
    } else if name == "dim"@ {
        Some("\x1b[2m"@)
    } else if name == "sitm"@ {
        Some("\x1b[3m"@)
    } else if name == "ritm"@ {
        Some("\x1b[23m"@)
    } else if name == "smul"@ {
        Some("\x1b[4m"@)
    } else if name == "rmul"@ {
        Some("\x1b[24m"@)
    } else if name == "rev"@ {
        Some("\x1b[7m"@)
    } else if name == "sgr0"@ {
        Some("\x1b[m"@)
    } else if name == "cols"@ {
        Some("80"@)
    } else if name == "lines"@ {
        Some("24"@)
    } else {
        None
    }
}

/// The value of the terminal capability `name`, when the terminal has it.
pub fn get_capability(name: &str) -> (res: Option<String>)
    ensures
        match res {
            Some(v) => capability(name@) == Some(v@),
            None => capability(name@) is None,
        },
{
    if same_text(name, "Tc") || same_text(name, "RGB") {
        return Some(String::from_str(""));
    }
    if same_text(name, "colors") {
        return Some(String::from_str("256"));
    }
    if same_text(name, "TN") || same_text(name, "name") {
        return Some(String::from_str("xterm-256color"));
    }
    if same_text(name, "Ss") {
        return Some(String::from_str("\x1b[%p1%d q"));
    }
    if same_text(name, "Se") {
        return Some(String::from_str("\x1b[2 q"));
    }
    if same_text(name, "Sync") {
        return Some(String::from_str(""));
    }
    if same_text(name, "Smol") {
        return Some(String::from_str("\x1b[53m"));
    }
    if same_text(name, "Rmol") {
        return Some(String::from_str("\x1b[55m"));
    }
    if same_text(name, "Setulc") {
        return Some(String::from_str("\x1b[58:2:%p1%{65536}%/%d:%p1%{256}%/%{255}%&%d:%p1%{255}%&%dm"));
    }
    if same_text(name, "Smulx") {
        return Some(String::from_str("\x1b[4:%p1%dm"));
    }
    if same_text(name, "smxx") {
        return Some(String::from_str("\x1b[9m"));
    }
    if same_text(name, "rmxx") {
        return Some(String::from_str("\x1b[29m"));
    }
    if same_text(name, "Ms") {
        return Some(String::from_str("\x1b]52;%p1%s;%p2%s\x07"));
    }
    if same_text(name, "fd") {
        return Some(String::from_str("\x1b[?1004l"));
    }
    if same_text(name, "fe") {
        return Some(String::from_str("\x1b[?1004h"));
    }
    if same_text(name, "BE") {
        return Some(String::from_str("\x1b[?2004h"));
    }
    if same_text(name, "BD") {
        return Some(String::from_str("\x1b[?2004l"));
    }
    if same_text(name, "PS") {
        return Some(String::from_str("\x1b[200~"));
    }
    if same_text(name, "PE") {
        return Some(String::from_str("\x1b[201~"));
    }
    if same_text(name, "XM") {
        return Some(String::from_str(""));
    }
    if same_text(name, "cup") {
        return Some(String::from_str("\x1b[%i%p1%d;%p2%dH"));
    }
    if same_text(name, "clear") {
        return Some(String::from_str("\x1b[H\x1b[2J"));
    }
    if same_text(name, "kbs") {
        return Some(String::from_str("\x7f"));
    }
    if same_text(name, "kcuu1") {
        return Some(String::from_str("\x1bOA"));
    }
    if same_text(name, "kcud1") {
        return Some(String::from_str("\x1bOB"));
    }
    if same_text(name, "kcuf1") {
        return Some(String::from_str("\x1bOC"));
    }
    if same_text(name, "kcub1") {
        return Some(String::from_str("\x1bOD"));
    }
    if same_text(name, "khome") {
        return Some(String::from_str("\x1bOH"));
    }
    if same_text(name, "kend") {
        return Some(String::from_str("\x1bOF"));
    }
    if same_text(name, "knp") {
        return Some(String::from_str("\x1b[6~"));
    }
    if same_text(name, "kpp") {
        return Some(String::from_str("\x1b[5~"));
    }
    if same_text(name, "kdch1") {
        return Some(String::from_str("\x1b[3~"));
    }
    if same_text(name, "kich1") {
        return Some(String::from_str("\x1b[2~"));
    }
    if same_text(name, "kf1") {
        return Some(String::from_str("\x1bOP"));
    }
    if same_text(name, "kf2") {
        return Some(String::from_str("\x1bOQ"));
    }
    if same_text(name, "kf3") {
        return Some(String::from_str("\x1bOR"));
    }
    if same_text(name, "kf4") {
        return Some(String::from_str("\x1bOS"));
    }
    if same_text(name, "kf5") {
        return Some(String::from_str("\x1b[15~"));
    }
    if same_text(name, "kf6") {
        return Some(String::from_str("\x1b[17~"));
    }
    if same_text(name, "kf7") {
        return Some(String::from_str("\x1b[18~"));
    }
    if same_text(name, "kf8") {
        return Some(String::from_str("\x1b[19~"));
    }
    if same_text(name, "kf9") {
        return Some(String::from_str("\x1b[20~"));
    }
    if same_text(name, "kf10") {
        return Some(String::from_str("\x1b[21~"));
    }
    if same_text(name, "kf11") {
        return Some(String::from_str("\x1b[23~"));
    }
    if same_text(name, "kf12") {
        return Some(String::from_str("\x1b[24~"));
    }
    if same_text(name, "acsc") {
        return Some(String::from_str("``aaffggiijjkkllmmnnooppqqrrssttuuvvwwxxyyzz{{||}}~~"));
    }
    if same_text(name, "bold") {
        return Some(String::from_str("\x1b[1m"));
    }
    if same_text(name, "dim") {
        return Some(String::from_str("\x1b[2m"));
    }
    if same_text(name, "sitm") {
        return Some(String::from_str("\x1b[3m"));
    }
    if same_text(name, "ritm") {
        return Some(String::from_str("\x1b[23m"));
    }
    if same_text(name, "smul") {
        return Some(String::from_str("\x1b[4m"));
    }
    if same_text(name, "rmul") {
        return Some(String::from_str("\x1b[24m"));
    }
    if same_text(name, "rev") {
        return Some(String::from_str("\x1b[7m"));
    }
    if same_text(name, "sgr0") {
        return Some(String::from_str("\x1b[m"));
    }
    if same_text(name, "cols") {
        return Some(String::from_str("80"));
    }
    if same_text(name, "lines") {
        return Some(String::from_str("24"));
    }
    None
}

/// `s` cut at each `;` (`str::split`): as many pieces as there are `;`
/// plus one, empty ones included.
pub open spec fn split_semicolons(s: Seq<char>) -> Seq<Seq<char>>
    decreases s.len(),
{
    if s.len() == 0 {
        seq![Seq::empty()]
    } else {
        let prev = split_semicolons(s.drop_last());
        if s.last() == ';' {
            prev.push(Seq::empty())
        } else {
            prev.update(prev.len() - 1, prev.last().push(s.last()))
        }
    }
}

proof fn lemma_split_nonempty(s: Seq<char>)
    ensures
        split_semicolons(s).len() >= 1,
    decreases s.len(),
{
    if s.len() > 0 {
        lemma_split_nonempty(s.drop_last());
    }
}

/// The reply to a query for the capability whose name is hex encoded in
/// `piece`: DCS 1 + r, the piece, `=` and the hex encoded value, ST when
/// the terminal has it; DCS 0 + r, the piece, ST otherwise.
pub open spec fn capability_reply(piece: Seq<char>) -> Seq<u8> {
    match capability(lossy_text(hex_bytes(encode_utf8(piece)))) {
        Some(v) => seq![0x1bu8, 0x50, 0x31, 0x2b, 0x72] + encode_utf8(piece) + seq![0x3du8] + hex_ascii(
            encode_utf8(v),
        ) + seq![0x1bu8, 0x5c],
        None => seq![0x1bu8, 0x50, 0x30, 0x2b, 0x72] + encode_utf8(piece) + seq![0x1bu8, 0x5c],
    }
}

/// The replies to an XTGETTCAP request: its data read as UTF-8 (invalid
/// sequences replaced) and cut at each `;` into hex encoded capability
/// names, one reply per name.
pub open spec fn capability_replies(data: Seq<u8>) -> Seq<Seq<u8>> {
    split_semicolons(lossy_text(data)).map_values(|p: Seq<char>| capability_reply(p))
}

/// The reply to a query for the capability hex encoded in `piece`.
fn reply_for(piece: &Vec<char>) -> (res: Vec<u8>)
    ensures
        res@ == capability_reply(piece@),
{
    let text = string_from_chars(piece);
    let name = hex_decode(text.as_str());
    let value = get_capability(name.as_str());
    let piece_bytes = copy_of(text.as_str().as_bytes());
    match value {
        Some(v) => {
            let mut out: Vec<u8> = vec![0x1bu8, 0x50, 0x31, 0x2b, 0x72];
            push_bytes(&mut out, piece_bytes.as_slice());
            out.push(0x3d);
            push_hex(&mut out, v.as_str().as_bytes());
            out.push(0x1b);
            out.push(0x5c);
            proof {
                assert(out@ =~= capability_reply(piece@));
            }
            out
        },
        None => {
            let mut out: Vec<u8> = vec![0x1bu8, 0x50, 0x30, 0x2b, 0x72];
            push_bytes(&mut out, piece_bytes.as_slice());
            out.push(0x1b);
            out.push(0x5c);
            proof {
                assert(out@ =~= capability_reply(piece@));
            }
            out
        },
    }
}

/// The replies to an XTGETTCAP request (DCS + q), in the order the names
/// come in its data.
pub fn capability_query_replies(data: &[u8]) -> (res: Vec<Vec<u8>>)
    ensures
        views(res@) == capability_replies(data@),
{
    let text = utf8_lossy(data);
    let ghost t = text@;
    let n = text.as_str().unicode_len();
    let mut out: Vec<Vec<u8>> = Vec::new();
    let mut cur: Vec<char> = Vec::new();
    let ghost mut done: Seq<Seq<char>> = Seq::empty();
    let mut i: usize = 0;
    proof {
        assert(t.subrange(0, 0) =~= Seq::<char>::empty());
        assert(split_semicolons(Seq::<char>::empty()) == done + seq![cur@]);
        assert(views(out@) =~= done.map_values(|p: Seq<char>| capability_reply(p)));
    }
    while i < n
        invariant
            n == t.len(),
            t == text@,
            i <= n,
            split_semicolons(t.subrange(0, i as int)) == done + seq![cur@],
            views(out@) == done.map_values(|p: Seq<char>| capability_reply(p)),
        decreases n - i,
    {
        let c = text.as_str().get_char(i);
        proof {
            assert(t.subrange(0, i + 1).drop_last() =~= t.subrange(0, i as int));
            assert(t.subrange(0, i + 1).last() == c);
        }
        if c == ';' {
            let reply = reply_for(&cur);
            proof {
                lemma_views_push(out@, reply);
                assert(done.push(cur@).map_values(|p: Seq<char>| capability_reply(p)) =~= done.map_values(
                    |p: Seq<char>| capability_reply(p),
                ).push(capability_reply(cur@)));
                assert(split_semicolons(t.subrange(0, i + 1)) =~= done.push(cur@) + seq![Seq::<char>::empty()]);
                done = done.push(cur@);
            }
            out.push(reply);
            cur = Vec::new();
        } else {
            let ghost pre = cur@;
            cur.push(c);
            proof {
                assert(split_semicolons(t.subrange(0, i + 1)) =~= done + seq![cur@]);
            }
        }
        i = i + 1;
    }
    let reply = reply_for(&cur);
    proof {
        assert(t.subrange(0, n as int) =~= t);
        lemma_views_push(out@, reply);
        assert(done.push(cur@).map_values(|p: Seq<char>| capability_reply(p)) =~= done.map_values(
            |p: Seq<char>| capability_reply(p),
        ).push(capability_reply(cur@)));
        assert(done + seq![cur@] =~= done.push(cur@));
    }
    out.push(reply);
    out
}

/// A level of the 6x6x6 color cube: 0, then 95 to 255 in steps of 40.
pub open spec fn cube_level(v: int) -> u8 {
    if v > 0 { (v * 40 + 55) as u8 } else { 0 }
}

/// The default color of palette entry `index` (xterm's 256 colors): 16
/// named colors, a 6x6x6 color cube, then 24 grays.
pub open spec fn palette_color(index: u8) -> (u8, u8, u8) {
    if index == 0 { (0, 0, 0) }
    else if index == 1 { (205, 0, 0) }
    else if index == 2 { (0, 205, 0) }
    else if index == 3 { (205, 205, 0) }
    else if index == 4 { (0, 0, 238) }
    else if index == 5 { (205, 0, 205) }
    else if index == 6 { (0, 205, 205) }
    else if index == 7 { (229, 229, 229) }
    else if index == 8 { (127, 127, 127) }
    else if index == 9 { (255, 0, 0) }
    else if index == 10 { (0, 255, 0) }
    else if index == 11 { (255, 255, 0) }
    else if index == 12 { (92, 92, 255) }
    else if index == 13 { (255, 0, 255) }
    else if index == 14 { (0, 255, 255) }
    else if index == 15 { (255, 255, 255) }
    else if index <= 231 {
        let i = index - 16;
        (cube_level(i / 36), cube_level((i / 6) % 6), cube_level(i % 6))
    } else {
        let v = ((index - 232) * 10 + 8) as u8;
        (v, v, v)
    }
}

fn cube_level_of(v: u8) -> (res: u8)
    requires
        v <= 5,
    ensures
        res == cube_level(v as int),
{
    if v > 0 {
        v * 40 + 55
    } else {
        0
    }
}

/// The default color of palette entry `index`.
pub fn default_palette_color(index: u8) -> (res: (u8, u8, u8))
    ensures
        res == palette_color(index),
{
    match index {
        0 => (0, 0, 0),
        1 => (205, 0, 0),
        2 => (0, 205, 0),
        3 => (205, 205, 0),
        4 => (0, 0, 238),
        5 => (205, 0, 205),
        6 => (0, 205, 205),
        7 => (229, 229, 229),
        8 => (127, 127, 127),
        9 => (255, 0, 0),
        10 => (0, 255, 0),
        11 => (255, 255, 0),
        12 => (92, 92, 255),
        13 => (255, 0, 255),
        14 => (0, 255, 255),
        15 => (255, 255, 255),
        16..=231 => {
            let idx = index - 16;
            let b_val = idx % 6;
            let g_val = (idx / 6) % 6;
            let r_val = idx / 36;
            (cube_level_of(r_val), cube_level_of(g_val), cube_level_of(b_val))
        },
        232..=255 => {
            let v = (index - 232) * 10 + 8;
            (v, v, v)
        },
    }
}

/// The reply to a palette color query (OSC 4 with `?`): OSC 4 ; index ;
/// rgb:RR/GG/BB ST, with the default color of the entry.
pub open spec fn palette_reply(index: u8) -> Seq<u8> {
    let (r, g, b) = palette_color(index);
    seq![0x1bu8, 0x5d, 0x34, 0x3b] + decimal(index as nat) + seq![0x3bu8, 0x72, 0x67, 0x62, 0x3a]
        + hex_ascii(seq![r]) + seq![0x2fu8] + hex_ascii(seq![g]) + seq![0x2fu8] + hex_ascii(seq![b])
        + seq![0x1bu8, 0x5c]
}

/// The reply to a query for palette entry `index`.
pub fn palette_query_reply(index: u8) -> (res: Vec<u8>)
    ensures
        res@ == palette_reply(index),
{
    let (r, g, b) = default_palette_color(index);
    let mut out: Vec<u8> = vec![0x1bu8, 0x5d, 0x34, 0x3b];
    push_decimal(&mut out, index as u64);
    let rgb: Vec<u8> = vec![0x3bu8, 0x72, 0x67, 0x62, 0x3a];
    push_bytes(&mut out, rgb.as_slice());
    let rv: Vec<u8> = vec![r];
    push_hex(&mut out, rv.as_slice());
    out.push(0x2f);
    let gv: Vec<u8> = vec![g];
    push_hex(&mut out, gv.as_slice());
    out.push(0x2f);
    let bv: Vec<u8> = vec![b];
    push_hex(&mut out, bv.as_slice());
    out.push(0x1b);
    out.push(0x5c);
    proof {
        assert(rv@ =~= seq![r]);
        assert(gv@ =~= seq![g]);
        assert(bv@ =~= seq![b]);
        assert(out@ =~= palette_reply(index));
    }
    out
}

/// The replies to a device control string with intermediates
/// `intermediates` and data `payload`: a capability request (the
/// intermediate `+`, as in DCS + q) is answered name by name; any other
/// string gets no reply.
pub open spec fn dcs_reply_seq(intermediates: Seq<u8>, payload: Seq<u8>) -> Seq<Seq<u8>> {
    if intermediates == seq![0x2bu8] {
        capability_replies(payload)
    } else {
        Seq::empty()
    }
}

/// The replies to a device control string.
pub fn dcs_replies(intermediates: &[u8], payload: &[u8]) -> (res: Vec<Vec<u8>>)
    ensures
        views(res@) == dcs_reply_seq(intermediates@, payload@),
{
    if intermediates.len() == 1 && intermediates[0] == 0x2b {
        proof {
            assert(intermediates@ =~= seq![0x2bu8]);
        }
        capability_query_replies(payload)
    } else {
        let res: Vec<Vec<u8>> = Vec::new();
        proof {
            assert(intermediates@ != seq![0x2bu8] ==> !(intermediates@ =~= seq![0x2bu8]));
            assert(views(res@) =~= Seq::<Seq<u8>>::empty());
        }
        res
    }
}

/// Primary device attributes: a VT220 with 132 columns, printer port,
/// selective erase, user-defined keys, national replacement character sets,
/// technical characters and ANSI color (ESC [ ? 62;1;2;4;6;7;8;9;15;22 c).
pub open spec fn primary_attributes() -> Seq<u8> {
    seq![
        0x1bu8, 0x5b, 0x3f, 0x36, 0x32, 0x3b, 0x31, 0x3b, 0x32, 0x3b, 0x34, 0x3b, 0x36, 0x3b, 0x37, 0x3b,
        0x38, 0x3b, 0x39, 0x3b, 0x31, 0x35, 0x3b, 0x32, 0x32, 0x63,
    ]
}

/// Secondary device attributes: ESC [ > 0;136;0 c.
pub open spec fn secondary_attributes() -> Seq<u8> {
    seq![0x1bu8, 0x5b, 0x3e, 0x30, 0x3b, 0x31, 0x33, 0x36, 0x3b, 0x30, 0x63]
}

/// Tertiary device attributes: DCS ! | 00000000 ST.
pub open spec fn tertiary_attributes() -> Seq<u8> {
    seq![0x1bu8, 0x50, 0x21, 0x7c, 0x30, 0x30, 0x30, 0x30, 0x30, 0x30, 0x30, 0x30, 0x1b, 0x5c]
}

/// The terminal's name and version: DCS > | mochi(0.1.0) ST.
pub open spec fn version_report() -> Seq<u8> {
    seq![
        0x1bu8, 0x50, 0x3e, 0x7c, 0x6d, 0x6f, 0x63, 0x68, 0x69, 0x28, 0x30, 0x2e, 0x31, 0x2e, 0x30, 0x29,
        0x1b, 0x5c,
    ]
}

/// The cursor position report ESC [ `marker` row ; col R, 1-based, where
/// `marker` is empty or `?`.
pub open spec fn position_report(marker: Seq<u8>, row: nat, col: nat) -> Seq<u8> {
    seq![0x1bu8, 0x5b] + marker + decimal(row + 1) + seq![0x3bu8] + decimal(col + 1) + seq![0x52u8]
}

/// The reply to a status or identification request (a CSI sequence with
/// private marker `marker`, intermediates `intermediates`, final byte
/// `final_byte` and first parameter `mode`, 0 when absent), with the
/// cursor at (`row`, `col`):
/// - `CSI 5 n` (device status): ESC [ 0 n;
/// - `CSI 6 n` (cursor position): ESC [ row ; col R;
/// - `CSI ? c` (primary attributes), `CSI > c` (secondary), `CSI = c`
///   (tertiary);
/// - `CSI ? 6 n` (extended cursor position): ESC [ ? row ; col R;
/// - `CSI > q` (version) and `CSI > u` (keyboard flags: ESC [ ? 0 u).
/// Any other sequence gets no reply here.
pub open spec fn device_reply(marker: Option<u8>, intermediates: Seq<u8>, final_byte: u8, mode: u16, row: nat, col: nat) -> Option<Seq<u8>> {
    match marker {
        None => {
            if intermediates.len() == 0 && final_byte == 0x6e && mode == 5 {
                Some(seq![0x1bu8, 0x5b, 0x30, 0x6e])
            } else if intermediates.len() == 0 && final_byte == 0x6e && mode == 6 {
                Some(position_report(Seq::empty(), row, col))
            } else {
                None
            }
        },
        Some(m) => {
            if m == 0x3f && final_byte == 0x63 {
                Some(primary_attributes())
            } else if m == 0x3f && final_byte == 0x6e && mode == 6 {
                Some(position_report(seq![0x3fu8], row, col))
            } else if m == 0x3e && final_byte == 0x63 {
                Some(secondary_attributes())
            } else if m == 0x3e && final_byte == 0x71 {
                Some(version_report())
            } else if m == 0x3e && final_byte == 0x75 {
                Some(seq![0x1bu8, 0x5b, 0x3f, 0x30, 0x75])
            } else if m == 0x3d && final_byte == 0x63 {
                Some(tertiary_attributes())
            } else {
                None
            }
        },
    }
}

/// The position report for the cursor at (`row`, `col`).
fn position_reply(question: bool, row: usize, col: usize) -> (res: Vec<u8>)
    requires
        row < usize::MAX,
        col < usize::MAX,
    ensures
        res@ == position_report(if question { seq![0x3fu8] } else { Seq::empty() }, row as nat, col as nat),
{
    let mut out: Vec<u8> = vec![0x1bu8, 0x5b];
    if question {
        out.push(0x3f);
    }
    push_decimal(&mut out, (row + 1) as u64);
    out.push(0x3b);
    push_decimal(&mut out, (col + 1) as u64);
    out.push(0x52);
    proof {
        assert(out@ =~= position_report(
            if question { seq![0x3fu8] } else { Seq::empty() },
            row as nat,
            col as nat,
        ));
    }
    out
}

/// The reply to a status or identification request, with the cursor at
/// (`cursor_row`, `cursor_col`); `None` when the sequence asks for none.
pub fn device_report(
    params: &Params,
    intermediates: &[u8],
    final_byte: u8,
    private_marker: Option<u8>,
    cursor_row: usize,
    cursor_col: usize,
) -> (res: Option<Vec<u8>>)
    requires
        cursor_row < usize::MAX,
        cursor_col < usize::MAX,
    ensures
        (match res {
            Some(v) => device_reply(
                private_marker,
                intermediates@,
                final_byte,
                if params@.len() > 0 { params@[0].value } else { 0 },
                cursor_row as nat,
                cursor_col as nat,
            ) == Some(v@),
            None => device_reply(
                private_marker,
                intermediates@,
                final_byte,
                if params@.len() > 0 { params@[0].value } else { 0 },
                cursor_row as nat,
                cursor_col as nat,
            ) is None,
        }),
{
    let mode = params.get_or(0, 0);
    match private_marker {
        None => {
            if intermediates.len() == 0 && final_byte == 0x6e && mode == 5 {
                Some(vec![0x1bu8, 0x5b, 0x30, 0x6e])
            } else if intermediates.len() == 0 && final_byte == 0x6e && mode == 6 {
                Some(position_reply(false, cursor_row, cursor_col))
            } else {
                None
            }
        },
        Some(m) => {
            if m == 0x3f && final_byte == 0x63 {
                let v: Vec<u8> = vec![
                    0x1bu8, 0x5b, 0x3f, 0x36, 0x32, 0x3b, 0x31, 0x3b, 0x32, 0x3b, 0x34, 0x3b, 0x36, 0x3b,
                    0x37, 0x3b, 0x38, 0x3b, 0x39, 0x3b, 0x31, 0x35, 0x3b, 0x32, 0x32, 0x63,
                ];
                proof {
                    assert(v@ =~= primary_attributes());
                }
                Some(v)
            } else if m == 0x3f && final_byte == 0x6e && mode == 6 {
                Some(position_reply(true, cursor_row, cursor_col))
            } else if m == 0x3e && final_byte == 0x63 {
                let v: Vec<u8> = vec![0x1bu8, 0x5b, 0x3e, 0x30, 0x3b, 0x31, 0x33, 0x36, 0x3b, 0x30, 0x63];
                proof {
                    assert(v@ =~= secondary_attributes());
                }
                Some(v)
            } else if m == 0x3e && final_byte == 0x71 {
                let v: Vec<u8> = vec![
                    0x1bu8, 0x50, 0x3e, 0x7c, 0x6d, 0x6f, 0x63, 0x68, 0x69, 0x28, 0x30, 0x2e, 0x31, 0x2e,
                    0x30, 0x29, 0x1b, 0x5c,
                ];
                proof {
                    assert(v@ =~= version_report());
                }
                Some(v)
            } else if m == 0x3e && final_byte == 0x75 {
                let v: Vec<u8> = vec![0x1bu8, 0x5b, 0x3f, 0x30, 0x75];
                proof {
                    assert(v@ =~= seq![0x1bu8, 0x5b, 0x3f, 0x30, 0x75]);
                }
                Some(v)
            } else if m == 0x3d && final_byte == 0x63 {
                let v: Vec<u8> = vec![
                    0x1bu8, 0x50, 0x21, 0x7c, 0x30, 0x30, 0x30, 0x30, 0x30, 0x30, 0x30, 0x30, 0x1b, 0x5c,
                ];
                proof {
                    assert(v@ =~= tertiary_attributes());
                }
                Some(v)
            } else {
                None
            }
        },
    }
}

} // verus!
