use sms_engine::codec::{is_gsm7_character, is_gsm7_compatible, to_ucs2_hex};

fn decode_ucs2_hex(hex: &str) -> String {
    let digits: Vec<char> = hex.chars().collect();
    assert_eq!(digits.len() % 4, 0);
    let mut units: Vec<u16> = Vec::new();
    for group in digits.chunks(4) {
        let text: String = group.iter().collect();
        units.push(u16::from_str_radix(&text, 16).unwrap());
    }
    String::from_utf16(&units).unwrap()
}

#[test]
fn plain_ascii_is_gsm7() {
    assert!(is_gsm7_compatible("hello world 0123456789"));
    assert!(is_gsm7_compatible(""));
    assert!(is_gsm7_compatible("+15550001"));
}

#[test]
fn the_whole_default_alphabet_is_gsm7() {
    let basic = "@£$¥èéùìòÇ\nØø\rÅåΔ_ΦΓΛΩΠΨΣΘΞÆæßÉ !\"#¤%&'()*+,-./0123456789:;<=>?¡ABCDEFGHIJKLMNOPQRSTUVWXYZÄÖÑÜ§¿abcdefghijklmnopqrstuvwxyzäöñüà";
    assert_eq!(basic.chars().count(), 127);
    assert!(is_gsm7_compatible(basic));
    for c in basic.chars() {
        assert!(is_gsm7_character(c), "{:?}", c);
    }
}

#[test]
fn the_extension_table_is_gsm7() {
    assert!(is_gsm7_compatible("^{}\\[~]|€"));
}

#[test]
fn characters_outside_the_alphabet_are_not_gsm7() {
    assert!(!is_gsm7_compatible("héllo 😀"));
    assert!(!is_gsm7_compatible("`"));
    assert!(!is_gsm7_compatible("\u{1b}"));
    assert!(!is_gsm7_compatible("\t"));
    assert!(!is_gsm7_compatible("\u{7f}"));
    assert!(!is_gsm7_compatible("ç"));
    assert!(!is_gsm7_compatible("abc\u{2028}"));
    assert!(!is_gsm7_compatible("Привет"));
    assert!(!is_gsm7_character('â'));
}

#[test]
fn one_bad_character_spoils_a_message() {
    assert!(is_gsm7_compatible("price: 10€"));
    assert!(!is_gsm7_compatible("price: 10€ ✓"));
}

#[test]
fn ucs2_hex_of_ascii() {
    assert_eq!(to_ucs2_hex("A"), "0041");
    assert_eq!(to_ucs2_hex("hi"), "00680069");
    assert_eq!(to_ucs2_hex("+15550001"), "002B00310035003500350030003000300031");
    assert_eq!(to_ucs2_hex(""), "");
}

#[test]
fn ucs2_hex_is_upper_case_and_four_digits_wide() {
    assert_eq!(to_ucs2_hex("\n"), "000A");
    assert_eq!(to_ucs2_hex("€"), "20AC");
    assert_eq!(to_ucs2_hex("ÿ"), "00FF");
    assert_eq!(to_ucs2_hex("\u{abcd}"), "ABCD");
    assert_eq!(to_ucs2_hex("\u{ffff}"), "FFFF");
}

#[test]
fn ucs2_hex_uses_surrogate_pairs_above_the_basic_plane() {
    assert_eq!(to_ucs2_hex("😀"), "D83DDE00");
    assert_eq!(to_ucs2_hex("\u{10000}"), "D800DC00");
    assert_eq!(to_ucs2_hex("\u{10ffff}"), "DBFFDFFF");
}

#[test]
fn ucs2_hex_of_a_mixed_message() {
    assert_eq!(to_ucs2_hex("héllo 😀"), "006800E9006C006C006F0020D83DDE00");
}

#[test]
fn ucs2_hex_agrees_with_the_standard_encoder() {
    for text in ["héllo 😀", "Ünïcödé", "日本語", "a\u{d7ff}b\u{e000}c", "𝄞🎵"] {
        let expected: String = text.encode_utf16().map(|u| format!("{:04X}", u)).collect();
        assert_eq!(to_ucs2_hex(text), expected);
    }
}

#[test]
fn ucs2_hex_decodes_back_as_utf16() {
    for text in ["", "hi", "héllo 😀", "^{}\\[~]|€", "Привет, мир", "\u{10ffff}\u{0}\u{ffff}"] {
        assert_eq!(decode_ucs2_hex(&to_ucs2_hex(text)), text);
    }
}

#[test]
fn a_message_is_either_gsm7_or_sent_as_ucs2_that_decodes_back() {
    for text in ["hello", "héllo", "héllo 😀", "ça va", "Ça va"] {
        if !is_gsm7_compatible(text) {
            assert_eq!(decode_ucs2_hex(&to_ucs2_hex(text)), text);
        } else {
            assert!(text.chars().all(is_gsm7_character));
        }
    }
    assert!(is_gsm7_compatible("Ça va"));
    assert!(!is_gsm7_compatible("ça va"));
}

/// The default alphabet by septet; the escape septet holds no character.
const GSM7_DEFAULT: [char; 128] = [
    '@', '£', '$', '¥', 'è', 'é', 'ù', 'ì', 'ò', 'Ç', '\n', 'Ø', 'ø', '\r', 'Å', 'å', 'Δ', '_',
    'Φ', 'Γ', 'Λ', 'Ω', 'Π', 'Ψ', 'Σ', 'Θ', 'Ξ', '\u{1b}', 'Æ', 'æ', 'ß', 'É', ' ', '!', '"', '#',
    '¤', '%', '&', '\'', '(', ')', '*', '+', ',', '-', '.', '/', '0', '1', '2', '3', '4', '5',
    '6', '7', '8', '9', ':', ';', '<', '=', '>', '?', '¡', 'A', 'B', 'C', 'D', 'E', 'F', 'G', 'H',
    'I', 'J', 'K', 'L', 'M', 'N', 'O', 'P', 'Q', 'R', 'S', 'T', 'U', 'V', 'W', 'X', 'Y', 'Z', 'Ä',
    'Ö', 'Ñ', 'Ü', '§', '¿', 'a', 'b', 'c', 'd', 'e', 'f', 'g', 'h', 'i', 'j', 'k', 'l', 'm', 'n',
    'o', 'p', 'q', 'r', 's', 't', 'u', 'v', 'w', 'x', 'y', 'z', 'ä', 'ö', 'ñ', 'ü', 'à',
];

/// The extension table: the septet after the escape septet, and its
/// character.
const GSM7_EXTENSION: [(u8, char); 9] = [
    (0x14, '^'),
    (0x28, '{'),
    (0x29, '}'),
    (0x2f, '\\'),
    (0x3c, '['),
    (0x3d, '~'),
    (0x3e, ']'),
    (0x40, '|'),
    (0x65, '€'),
];

fn gsm7_encode(text: &str) -> Vec<u8> {
    let mut septets = Vec::new();
    for c in text.chars() {
        if let Some(code) = GSM7_DEFAULT.iter().position(|&d| d == c && c != '\u{1b}') {
            septets.push(code as u8);
        } else {
            let (code, _) = GSM7_EXTENSION.iter().find(|(_, e)| *e == c).unwrap();
            septets.push(0x1b);
            septets.push(*code);
        }
    }
    septets
}

fn gsm7_decode(septets: &[u8]) -> String {
    let mut text = String::new();
    let mut i = 0;
    while i < septets.len() {
        if septets[i] == 0x1b {
            let (_, c) = GSM7_EXTENSION.iter().find(|(code, _)| *code == septets[i + 1]).unwrap();
            text.push(*c);
            i += 2;
        } else {
            text.push(GSM7_DEFAULT[septets[i] as usize]);
            i += 1;
        }
    }
    text
}

#[test]
fn the_alphabet_is_that_of_the_gsm_tables() {
    let mut code: u32 = 0;
    while code <= 0x3000 {
        if let Some(c) = char::from_u32(code) {
            let in_tables = (c != '\u{1b}' && GSM7_DEFAULT.contains(&c))
                || GSM7_EXTENSION.iter().any(|(_, e)| *e == c);
            assert_eq!(is_gsm7_character(c), in_tables, "{:?}", c);
        }
        code += 1;
    }
}

#[test]
fn a_gsm7_message_decodes_back_from_its_septets() {
    for text in ["", "hello", "Ça va? 10€ [ok] {x|y} ~^\\", "ΔΦΓΛΩΠΨΣΘΞ @£$¥ èéùìòÇ\r\n", "ÄÖÑÜ§¿äöñüà¡ÆæßÉØøÅå¤_"] {
        assert!(is_gsm7_compatible(text), "{:?}", text);
        let septets = gsm7_encode(text);
        assert!(septets.iter().all(|s| *s < 0x80));
        assert_eq!(gsm7_decode(&septets), text);
    }
}
