//! Text codec: which messages fit the GSM 7-bit alphabet, and the UCS-2 hex
//! form that modems in the UCS2 character set expect.

use vstd::prelude::*;

verus! {

/// The septet of the GSM 03.38 default alphabet that stands for `c`, if any.
///
/// Letters, digits and most ASCII punctuation keep their ASCII value; the
/// other rows of the table are listed one by one. The escape septet `0x1B`
/// stands for no character.
pub open spec fn gsm7_basic_code(c: char) -> Option<u8> {
    let u = c as u32;
    if u == 0x0A || u == 0x0D || (0x20 <= u <= 0x23) || (0x25 <= u <= 0x3F) || (0x41 <= u <= 0x5A)
        || (0x61 <= u <= 0x7A) {
        Some(u as u8)
    } else if u == 0x40 {
        Some(0x00u8)
    } else if u == 0xA3 {
        Some(0x01u8)
    } else if u == 0x24 {
        Some(0x02u8)
    } else if u == 0xA5 {
        Some(0x03u8)
    } else if u == 0xE8 {
        Some(0x04u8)
    } else if u == 0xE9 {
        Some(0x05u8)
    } else if u == 0xF9 {
        Some(0x06u8)
    } else if u == 0xEC {
        Some(0x07u8)
    } else if u == 0xF2 {
        Some(0x08u8)
    } else if u == 0xC7 {
        Some(0x09u8)
    } else if u == 0xD8 {
        Some(0x0Bu8)
    } else if u == 0xF8 {
        Some(0x0Cu8)
    } else if u == 0xC5 {
        Some(0x0Eu8)
    } else if u == 0xE5 {
        Some(0x0Fu8)
    } else if u == 0x394 {
        Some(0x10u8)
    } else if u == 0x5F {
        Some(0x11u8)
    } else if u == 0x3A6 {
        Some(0x12u8)
    } else if u == 0x393 {
        Some(0x13u8)
    } else if u == 0x39B {
        Some(0x14u8)
    } else if u == 0x3A9 {
        Some(0x15u8)
    } else if u == 0x3A0 {
        Some(0x16u8)
    } else if u == 0x3A8 {
        Some(0x17u8)
    } else if u == 0x3A3 {
        Some(0x18u8)
    } else if u == 0x398 {
        Some(0x19u8)
    } else if u == 0x39E {
        Some(0x1Au8)
    } else if u == 0xC6 {
        Some(0x1Cu8)
    } else if u == 0xE6 {
        Some(0x1Du8)
    } else if u == 0xDF {
        Some(0x1Eu8)
    } else if u == 0xC9 {
        Some(0x1Fu8)
    } else if u == 0xA4 {
        Some(0x24u8)
    } else if u == 0xA1 {
        Some(0x40u8)
    } else if u == 0xC4 {
        Some(0x5Bu8)
    } else if u == 0xD6 {
        Some(0x5Cu8)
    } else if u == 0xD1 {
        Some(0x5Du8)
    } else if u == 0xDC {
        Some(0x5Eu8)
    } else if u == 0xA7 {
        Some(0x5Fu8)
    } else if u == 0xBF {
        Some(0x60u8)
    } else if u == 0xE4 {
        Some(0x7Bu8)
    } else if u == 0xF6 {
        Some(0x7Cu8)
    } else if u == 0xF1 {
        Some(0x7Du8)
    } else if u == 0xFC {
        Some(0x7Eu8)
    } else if u == 0xE0 {
        Some(0x7Fu8)
    } else {
        None
    }
}

/// The septet that follows the escape septet for a character of the
/// extension table: `^ { } \ [ ~ ] |` and the euro sign.
pub open spec fn gsm7_ext_code(c: char) -> Option<u8> {
    let u = c as u32;
    if u == 0x5E {
        Some(0x14u8)
    } else if u == 0x7B {
        Some(0x28u8)
    } else if u == 0x7D {
        Some(0x29u8)
    } else if u == 0x5C {
        Some(0x2Fu8)
    } else if u == 0x5B {
        Some(0x3Cu8)
    } else if u == 0x7E {
        Some(0x3Du8)
    } else if u == 0x5D {
        Some(0x3Eu8)
    } else if u == 0x7C {
        Some(0x40u8)
    } else if u == 0x20AC {
        Some(0x65u8)
    } else {
        None
    }
}

/// `c` lies in the default alphabet or in its extension table.
pub open spec fn is_gsm7_char(c: char) -> bool {
    gsm7_basic_code(c) is Some || gsm7_ext_code(c) is Some
}

/// Every character of `s` lies in the GSM 7-bit alphabet.
pub open spec fn gsm7_compatible(s: Seq<char>) -> bool {
    forall|i: int| 0 <= i < s.len() ==> is_gsm7_char(#[trigger] s[i])
}

/// Whether one character can be sent in the GSM 7-bit character set.
pub fn is_gsm7_character(c: char) -> (ok: bool)
    ensures
        ok == is_gsm7_char(c),
{
    let u: u32 = c as u32;
    if u < 0x80 {
        // All of ASCII from space up except the grave accent, plus LF and CR.
        u == 0x0A || u == 0x0D || (u >= 0x20 && u != 0x60 && u != 0x7F)
    } else if u < 0x100 {
        u == 0xA1 || u == 0xA3 || u == 0xA4 || u == 0xA5 || u == 0xA7 || u == 0xBF || u == 0xC4
            || u == 0xC5 || u == 0xC6 || u == 0xC7 || u == 0xC9 || u == 0xD1 || u == 0xD6
            || u == 0xD8 || u == 0xDC || u == 0xDF || u == 0xE0 || u == 0xE4 || u == 0xE5
            || u == 0xE6 || u == 0xE8 || u == 0xE9 || u == 0xEC || u == 0xF1 || u == 0xF2
            || u == 0xF6 || u == 0xF8 || u == 0xF9 || u == 0xFC
    } else {
        u == 0x393 || u == 0x394 || u == 0x398 || u == 0x39B || u == 0x39E || u == 0x3A0
            || u == 0x3A3 || u == 0x3A6 || u == 0x3A8 || u == 0x3A9 || u == 0x20AC
    }
}

/// Whether a message can be sent in the GSM 7-bit character set: true exactly
/// when each of its characters lies in the alphabet.
pub fn is_gsm7_compatible(message: &str) -> (ok: bool)
    ensures
        ok == gsm7_compatible(message@),
{
    broadcast use vstd::string::axiom_spec_iter;

    for c in it: message.chars()
        invariant
            it.seq() == message@,
            forall|i: int| 0 <= i < it.index() ==> is_gsm7_char(#[trigger] message@[i]),
    {
        if !is_gsm7_character(c) {
            return false;
        }
    }
    true
}

/// The UTF-16 code units of one character: the character itself below
/// U+10000, a surrogate pair above.
pub open spec fn utf16_units(c: char) -> Seq<u16> {
    let u = c as u32 as int;
    if u < 0x10000 {
        seq![u as u16]
    } else {
        seq![(0xD800 + (u - 0x10000) / 0x400) as u16, (0xDC00 + (u - 0x10000) % 0x400) as u16]
    }
}

/// The UTF-16 encoding of a text.
pub open spec fn utf16_encode(s: Seq<char>) -> Seq<u16> {
    s.flat_map(|c: char| utf16_units(c))
}

/// The upper-case hexadecimal digit for a value below sixteen.
pub open spec fn hex_digit(d: int) -> char {
    if d < 10 {
        (0x30 + d) as char
    } else {
        (0x37 + d) as char
    }
}

/// One code unit as four hexadecimal digits, the most significant first.
pub open spec fn hex4(u: u16) -> Seq<char> {
    seq![
        hex_digit(u as int / 0x1000),
        hex_digit(u as int / 0x100 % 16),
        hex_digit(u as int / 0x10 % 16),
        hex_digit(u as int % 16),
    ]
}

/// Code units written one after the other, four digits each.
pub open spec fn hex_groups(units: Seq<u16>) -> Seq<char> {
    units.flat_map(|u: u16| hex4(u))
}

/// The UCS-2 hex form of a text: its big-endian UTF-16 code units as
/// upper-case groups of four hexadecimal digits.
pub open spec fn ucs2_hex(s: Seq<char>) -> Seq<char> {
    hex_groups(utf16_encode(s))
}

proof fn lemma_hex_groups_of_units(c: char)
    ensures
        hex_groups(utf16_units(c)) == if utf16_units(c).len() == 1 {
            hex4(utf16_units(c)[0])
        } else {
            hex4(utf16_units(c)[0]) + hex4(utf16_units(c)[1])
        },
{
    let units = utf16_units(c);
    let none = Seq::<u16>::empty();
    none.lemma_flat_map_push(|u: u16| hex4(u), units[0]);
    assert(hex_groups(none) =~= Seq::<char>::empty());
    if units.len() == 1 {
        assert(none.push(units[0]) =~= units);
    } else {
        none.push(units[0]).lemma_flat_map_push(|u: u16| hex4(u), units[1]);
        assert(none.push(units[0]).push(units[1]) =~= units);
    }
}

proof fn lemma_ucs2_hex_push(s: Seq<char>, c: char)
    ensures
        ucs2_hex(s.push(c)) == ucs2_hex(s) + hex_groups(utf16_units(c)),
{
    s.lemma_flat_map_push(|c: char| utf16_units(c), c);
    let head = utf16_encode(s);
    let units = utf16_units(c);
    lemma_hex_groups_of_units(c);
    head.lemma_flat_map_push(|u: u16| hex4(u), units[0]);
    if units.len() == 1 {
        assert(head + units =~= head.push(units[0]));
    } else {
        head.push(units[0]).lemma_flat_map_push(|u: u16| hex4(u), units[1]);
        assert(head + units =~= head.push(units[0]).push(units[1]));
    }
}

fn hex_digit_text(d: u16) -> (text: &'static str)
    requires
        d < 16,
    ensures
        text@ == seq![hex_digit(d as int)],
{
    proof {
        reveal_strlit("0");
        reveal_strlit("1");
        reveal_strlit("2");
        reveal_strlit("3");
        reveal_strlit("4");
        reveal_strlit("5");
        reveal_strlit("6");
        reveal_strlit("7");
        reveal_strlit("8");
        reveal_strlit("9");
        reveal_strlit("A");
        reveal_strlit("B");
        reveal_strlit("C");
        reveal_strlit("D");
        reveal_strlit("E");
        reveal_strlit("F");
    }
    let text = match d {
        0 => "0",
        1 => "1",
        2 => "2",
        3 => "3",
        4 => "4",
        5 => "5",
        6 => "6",
        7 => "7",
        8 => "8",
        9 => "9",
        10 => "A",
        11 => "B",
        12 => "C",
        13 => "D",
        14 => "E",
        _ => "F",
    };
    assert(text@ =~= seq![hex_digit(d as int)]);
    text
}

fn push_hex4(out: &mut String, unit: u16)
    ensures
        final(out)@ == old(out)@ + hex4(unit),
{
    out.append(hex_digit_text(unit / 0x1000));
    out.append(hex_digit_text(unit / 0x100 % 16));
    out.append(hex_digit_text(unit / 0x10 % 16));
    out.append(hex_digit_text(unit % 16));
    assert(out@ =~= old(out)@ + hex4(unit));
}

/// The UCS-2 hex form of `s`: each UTF-16 code unit of `s`, in order, as four
/// upper-case hexadecimal digits.
pub fn to_ucs2_hex(s: &str) -> (hex: String)
    ensures
        hex@ == ucs2_hex(s@),
{
    broadcast use vstd::string::axiom_spec_iter;

    let mut hex = String::new();
    assert(s@.take(0) =~= Seq::<char>::empty());
    assert(ucs2_hex(Seq::<char>::empty()) =~= Seq::<char>::empty());
    for c in it: s.chars()
        invariant
            it.seq() == s@,
            hex@ == ucs2_hex(s@.take(it.index())),
    {
        proof {
            assert(s@.take(it.index() + 1) =~= s@.take(it.index()).push(c));
            lemma_ucs2_hex_push(s@.take(it.index()), c);
            lemma_hex_groups_of_units(c);
        }
        let u: u32 = c as u32;
        if u < 0x10000 {
            push_hex4(&mut hex, u as u16);
        } else {
            let v: u32 = u - 0x10000;
            push_hex4(&mut hex, (0xD800 + v / 0x400) as u16);
            push_hex4(&mut hex, (0xDC00 + v % 0x400) as u16);
        }
    }
    assert(s@.take(s@.len() as int) =~= s@);
    hex
}

/// The value of an upper-case hexadecimal digit.
pub open spec fn hex_value(c: char) -> Option<int> {
    let u = c as u32 as int;
    if 0x30 <= u <= 0x39 {
        Some(u - 0x30)
    } else if 0x41 <= u <= 0x46 {
        Some(u - 0x37)
    } else {
        None
    }
}

/// The code unit that four hexadecimal digits spell.
pub open spec fn unit_of_hex4(h: Seq<char>) -> Option<u16> {
    if h.len() == 4 && hex_value(h[0]) is Some && hex_value(h[1]) is Some && hex_value(h[2]) is Some
        && hex_value(h[3]) is Some {
        Some(
            (hex_value(h[0])->0 * 0x1000 + hex_value(h[1])->0 * 0x100 + hex_value(h[2])->0 * 0x10
                + hex_value(h[3])->0) as u16,
        )
    } else {
        None
    }
}

/// The code units that a run of four-digit groups spells, if it is one.
pub open spec fn units_of_hex(h: Seq<char>) -> Option<Seq<u16>>
    decreases h.len(),
{
    if h.len() == 0 {
        Some(Seq::empty())
    } else if h.len() < 4 {
        None
    } else {
        match (unit_of_hex4(h.take(4)), units_of_hex(h.skip(4))) {
            (Some(u), Some(rest)) => Some(seq![u] + rest),
            _ => None,
        }
    }
}

/// The text that UTF-16 code units encode, if they are well formed.
pub open spec fn utf16_decode(units: Seq<u16>) -> Option<Seq<char>>
    decreases units.len(),
{
    if units.len() == 0 {
        Some(Seq::empty())
    } else if units[0] < 0xD800 || units[0] >= 0xE000 {
        match utf16_decode(units.skip(1)) {
            Some(rest) => Some(seq![units[0] as char] + rest),
            None => None,
        }
    } else if units[0] < 0xDC00 && units.len() >= 2 && 0xDC00 <= units[1] < 0xE000 {
        match utf16_decode(units.skip(2)) {
            Some(rest) => Some(
                seq![(0x10000 + (units[0] - 0xD800) * 0x400 + (units[1] - 0xDC00)) as char] + rest,
            ),
            None => None,
        }
    } else {
        None
    }
}

/// The text that a UCS-2 hex string stands for, read as big-endian UTF-16.
pub open spec fn ucs2_hex_decode(h: Seq<char>) -> Option<Seq<char>> {
    match units_of_hex(h) {
        Some(units) => utf16_decode(units),
        None => None,
    }
}

proof fn lemma_flat_map_first<A, B>(s: Seq<A>, f: spec_fn(A) -> Seq<B>)
    requires
        s.len() > 0,
    ensures
        s.flat_map(f) == f(s[0]) + s.drop_first().flat_map(f),
{
    assert(s.map_values(f).drop_first() =~= s.drop_first().map_values(f));
}

proof fn lemma_hex_digit_reads_back(d: int)
    requires
        0 <= d < 16,
    ensures
        hex_value(hex_digit(d)) == Some(d),
{
}

proof fn lemma_hex4_reads_back(u: u16)
    ensures
        hex4(u).len() == 4,
        unit_of_hex4(hex4(u)) == Some(u),
{
    let a = u / 0x1000;
    let b = u / 0x100 % 16;
    let c = u / 0x10 % 16;
    let d = u % 16;
    assert(a < 16 && u == a * 0x1000 + b * 0x100 + c * 0x10 + d) by (bit_vector)
        requires
            a == u / 0x1000,
            b == u / 0x100 % 16,
            c == u / 0x10 % 16,
            d == u % 16,
    ;
    lemma_hex_digit_reads_back(a as int);
    lemma_hex_digit_reads_back(b as int);
    lemma_hex_digit_reads_back(c as int);
    lemma_hex_digit_reads_back(d as int);
}

/// Hexadecimal groups spell the code units they were written from.
pub proof fn lemma_hex_groups_read_back(units: Seq<u16>)
    ensures
        units_of_hex(hex_groups(units)) == Some(units),
    decreases units.len(),
{
    if units.len() == 0 {
        assert(hex_groups(units) =~= Seq::<char>::empty());
        assert(units =~= Seq::<u16>::empty());
    } else {
        let rest = units.drop_first();
        lemma_flat_map_first(units, |u: u16| hex4(u));
        lemma_hex4_reads_back(units[0]);
        lemma_hex_groups_read_back(rest);
        let h = hex_groups(units);
        assert(h.take(4) =~= hex4(units[0]));
        assert(h.skip(4) =~= hex_groups(rest));
        assert(seq![units[0]] + rest =~= units);
    }
}

/// UTF-16 decoding undoes UTF-16 encoding.
pub proof fn lemma_utf16_decodes_back(s: Seq<char>)
    ensures
        utf16_decode(utf16_encode(s)) == Some(s),
    decreases s.len(),
{
    if s.len() == 0 {
        assert(utf16_encode(s) =~= Seq::<u16>::empty());
        assert(s =~= Seq::<char>::empty());
    } else {
        let rest = s.drop_first();
        let c = s[0];
        let u = c as u32 as int;
        lemma_flat_map_first(s, |c: char| utf16_units(c));
        lemma_utf16_decodes_back(rest);
        let units = utf16_encode(s);
        vstd::utf8::char_is_scalar(c);
        vstd::utf8::char_u32_cast(c, c as u32);
        assert(units == utf16_units(c) + utf16_encode(rest));
        if u < 0x10000 {
            assert(units.skip(1) =~= utf16_encode(rest));
            assert(units[0] as char == (c as u32) as char);
        } else {
            let v = u - 0x10000;
            assert(units.skip(2) =~= utf16_encode(rest));
            assert(units[0] == 0xD800 + v / 0x400);
            assert(units[1] == 0xDC00 + v % 0x400);
            let joined = 0x10000 + (units[0] - 0xD800) * 0x400 + (units[1] - 0xDC00);
            assert(joined as char == (c as u32) as char);
        }
        assert(seq![c] + rest =~= s);
    }
}

/// Every text is recovered from its UCS-2 hex form by reading the digits as
/// big-endian UTF-16.
pub proof fn lemma_ucs2_hex_decodes_back(s: Seq<char>)
    ensures
        ucs2_hex_decode(ucs2_hex(s)) == Some(s),
{
    lemma_hex_groups_read_back(utf16_encode(s));
    lemma_utf16_decodes_back(s);
}

/// The septets that carry one character: its code in the default alphabet,
/// or the escape septet and its code in the extension table. A character
/// outside the alphabet has none.
pub open spec fn gsm7_septets(c: char) -> Seq<u8> {
    match gsm7_basic_code(c) {
        Some(code) => seq![code],
        None => match gsm7_ext_code(c) {
            Some(code) => seq![0x1Bu8, code],
            None => Seq::empty(),
        },
    }
}

/// The septets of a text in the GSM 7-bit alphabet.
pub open spec fn gsm7_encode(s: Seq<char>) -> Seq<u8> {
    s.flat_map(|c: char| gsm7_septets(c))
}

/// The character of the default alphabet with the given code.
pub open spec fn gsm7_basic_char(code: u8) -> Option<char> {
    if exists|c: char| gsm7_basic_code(c) == Some(code) {
        Some(choose|c: char| gsm7_basic_code(c) == Some(code))
    } else {
        None
    }
}

/// The character of the extension table with the given code.
pub open spec fn gsm7_ext_char(code: u8) -> Option<char> {
    if exists|c: char| gsm7_ext_code(c) == Some(code) {
        Some(choose|c: char| gsm7_ext_code(c) == Some(code))
    } else {
        None
    }
}

/// The text that septets stand for, if each of them is a code of the
/// alphabet: a decoder that yields no character outside it.
pub open spec fn gsm7_decode(septets: Seq<u8>) -> Option<Seq<char>>
    decreases septets.len(),
{
    if septets.len() == 0 {
        Some(Seq::empty())
    } else if septets[0] == 0x1B {
        if septets.len() >= 2 {
            match (gsm7_ext_char(septets[1]), gsm7_decode(septets.skip(2))) {
                (Some(c), Some(rest)) => Some(seq![c] + rest),
                _ => None,
            }
        } else {
            None
        }
    } else {
        match (gsm7_basic_char(septets[0]), gsm7_decode(septets.skip(1))) {
            (Some(c), Some(rest)) => Some(seq![c] + rest),
            _ => None,
        }
    }
}

proof fn lemma_gsm7_codes_distinct(a: char, b: char)
    ensures
        gsm7_basic_code(a) is Some && gsm7_basic_code(a) == gsm7_basic_code(b) ==> a == b,
        gsm7_ext_code(a) is Some && gsm7_ext_code(a) == gsm7_ext_code(b) ==> a == b,
        gsm7_basic_code(a) is Some ==> gsm7_basic_code(a)->0 != 0x1B && gsm7_basic_code(a)->0
            < 0x80,
{
}

/// A text within the GSM 7-bit alphabet is recovered from its septets.
pub proof fn lemma_gsm7_decodes_back(s: Seq<char>)
    requires
        gsm7_compatible(s),
    ensures
        gsm7_decode(gsm7_encode(s)) == Some(s),
    decreases s.len(),
{
    if s.len() == 0 {
        assert(gsm7_encode(s) =~= Seq::<u8>::empty());
        assert(s =~= Seq::<char>::empty());
    } else {
        let rest = s.drop_first();
        let c = s[0];
        assert(is_gsm7_char(c));
        assert forall|i: int| 0 <= i < rest.len() implies is_gsm7_char(#[trigger] rest[i]) by {
            assert(rest[i] == s[i + 1]);
        }
        lemma_flat_map_first(s, |c: char| gsm7_septets(c));
        lemma_gsm7_decodes_back(rest);
        let septets = gsm7_encode(s);
        lemma_gsm7_codes_distinct(c, c);
        match gsm7_basic_code(c) {
            Some(code) => {
                assert(septets.skip(1) =~= gsm7_encode(rest));
                assert(septets[0] == code);
                let d = choose|d: char| gsm7_basic_code(d) == Some(code);
                lemma_gsm7_codes_distinct(c, d);
            },
            None => {
                let code = gsm7_ext_code(c)->0;
                assert(septets.skip(2) =~= gsm7_encode(rest));
                assert(septets[0] == 0x1B);
                assert(septets[1] == code);
                let d = choose|d: char| gsm7_ext_code(d) == Some(code);
                lemma_gsm7_codes_distinct(c, d);
            },
        }
        assert(seq![c] + rest =~= s);
    }
}

/// What the GSM 7-bit decoder yields lies within the alphabet.
pub proof fn lemma_gsm7_decode_stays_in_alphabet(septets: Seq<u8>)
    ensures
        gsm7_decode(septets) matches Some(s) ==> gsm7_compatible(s),
    decreases septets.len(),
{
    if septets.len() == 0 {
    } else if septets[0] == 0x1B {
        if septets.len() >= 2 {
            lemma_gsm7_decode_stays_in_alphabet(septets.skip(2));
        }
    } else {
        lemma_gsm7_decode_stays_in_alphabet(septets.skip(1));
    }
}

} // verus!
