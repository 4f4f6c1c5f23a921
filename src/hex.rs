//! `#rrggbb` text for colors.
use vstd::prelude::*;

verus! {

/// The sixteen lowercase hexadecimal digits, in value order.
pub open spec fn hex_alphabet() -> Seq<char> {
    seq!['0', '1', '2', '3', '4', '5', '6', '7', '8', '9', 'a', 'b', 'c', 'd', 'e', 'f']
}

/// Two lowercase hexadecimal digits for one byte, high digit first.
pub open spec fn byte_hex(v: u8) -> Seq<char> {
    seq![hex_alphabet()[v as int / 16], hex_alphabet()[v as int % 16]]
}

/// `#` followed by two lowercase digits for each channel, zero padded.
pub open spec fn hex_string(r: u8, g: u8, b: u8) -> Seq<char> {
    seq!['#'] + byte_hex(r) + byte_hex(g) + byte_hex(b)
}

/// The value of one hexadecimal digit, of either case.
pub open spec fn hex_value(c: char) -> Option<u8> {
    if '0' <= c && c <= '9' {
        Some((c as u32 - '0' as u32) as u8)
    } else if 'a' <= c && c <= 'f' {
        Some((c as u32 - 'a' as u32 + 10) as u8)
    } else if 'A' <= c && c <= 'F' {
        Some((c as u32 - 'A' as u32 + 10) as u8)
    } else {
        None
    }
}

/// Whether `c` is a hexadecimal digit.
pub open spec fn is_hex_digit(c: char) -> bool {
    hex_value(c) is Some
}

/// The byte that two hexadecimal digits spell.
pub open spec fn byte_of(hi: char, lo: char) -> u8 {
    (hex_value(hi)->Some_0 * 16 + hex_value(lo)->Some_0) as u8
}

/// The channels that a `#rrggbb` string spells, or `None` for any other text.
pub open spec fn parse_hex_color(s: Seq<char>) -> Option<(u8, u8, u8)> {
    if s.len() == 7 && s[0] == '#' && (forall|i: int| 1 <= i < 7 ==> is_hex_digit(#[trigger] s[i])) {
        Some((byte_of(s[1], s[2]), byte_of(s[3], s[4]), byte_of(s[5], s[6])))
    } else {
        None
    }
}

/// Each lowercase digit reads back as its own value.
proof fn lemma_hex_digit_value(d: int)
    requires
        0 <= d < 16,
    ensures
        hex_value(hex_alphabet()[d]) == Some(d as u8),
{
}

/// Reading back the text of a color gives the color: `#rrggbb` is always seven
/// characters, and parsing it recovers each channel.
pub proof fn lemma_hex_round_trip(r: u8, g: u8, b: u8)
    ensures
        hex_string(r, g, b).len() == 7,
        parse_hex_color(hex_string(r, g, b)) == Some((r, g, b)),
{
    let s = hex_string(r, g, b);
    lemma_hex_digit_value(r as int / 16);
    lemma_hex_digit_value(r as int % 16);
    lemma_hex_digit_value(g as int / 16);
    lemma_hex_digit_value(g as int % 16);
    lemma_hex_digit_value(b as int / 16);
    lemma_hex_digit_value(b as int % 16);
    assert(s[1] == hex_alphabet()[r as int / 16]);
    assert(s[2] == hex_alphabet()[r as int % 16]);
    assert(s[3] == hex_alphabet()[g as int / 16]);
    assert(s[4] == hex_alphabet()[g as int % 16]);
    assert(s[5] == hex_alphabet()[b as int / 16]);
    assert(s[6] == hex_alphabet()[b as int % 16]);
    assert forall|i: int| 1 <= i < 7 implies is_hex_digit(#[trigger] s[i]) by {}
}

/// The one-character text of a hexadecimal digit.
fn hex_char(d: u8) -> (s: &'static str)
    requires
        d < 16,
    ensures
        s@ == seq![hex_alphabet()[d as int]],
{
    match d {
        0 => { proof { reveal_strlit("0"); } "0" },
        1 => { proof { reveal_strlit("1"); } "1" },
        2 => { proof { reveal_strlit("2"); } "2" },
        3 => { proof { reveal_strlit("3"); } "3" },
        4 => { proof { reveal_strlit("4"); } "4" },
        5 => { proof { reveal_strlit("5"); } "5" },
        6 => { proof { reveal_strlit("6"); } "6" },
        7 => { proof { reveal_strlit("7"); } "7" },
        8 => { proof { reveal_strlit("8"); } "8" },
        9 => { proof { reveal_strlit("9"); } "9" },
        10 => { proof { reveal_strlit("a"); } "a" },
        11 => { proof { reveal_strlit("b"); } "b" },
        12 => { proof { reveal_strlit("c"); } "c" },
        13 => { proof { reveal_strlit("d"); } "d" },
        14 => { proof { reveal_strlit("e"); } "e" },
        _ => { proof { reveal_strlit("f"); } "f" },
    }
}

/// Appends the two digits of one byte.
fn push_byte_hex(out: &mut String, v: u8)
    ensures
        final(out)@ == old(out)@ + byte_hex(v),
{
    out.append(hex_char(v / 16));
    out.append(hex_char(v % 16));
    assert(final(out)@ =~= old(out)@ + byte_hex(v));
}

/// Formats a color as `#rrggbb`: lowercase, two zero-padded digits per channel.
pub fn rgb_to_hex(red: u8, green: u8, blue: u8) -> (s: String)
    ensures
        s@ == hex_string(red, green, blue),
        s@.len() == 7,
{
    proof { reveal_strlit("#"); }
    let mut s = String::from_str("#");
    push_byte_hex(&mut s, red);
    push_byte_hex(&mut s, green);
    push_byte_hex(&mut s, blue);
    assert(s@ =~= hex_string(red, green, blue));
    s
}

/// The value of one hexadecimal digit, of either case.
fn digit_value(c: char) -> (r: Option<u8>)
    ensures
        r == hex_value(c),
{
    if '0' <= c && c <= '9' {
        Some((c as u32 - '0' as u32) as u8)
    } else if 'a' <= c && c <= 'f' {
        Some((c as u32 - 'a' as u32 + 10) as u8)
    } else if 'A' <= c && c <= 'F' {
        Some((c as u32 - 'A' as u32 + 10) as u8)
    } else {
        None
    }
}

/// Reads `#rrggbb` (digits of either case) back into its channels; any other
/// text gives `None`.
pub fn hex_to_rgb(s: &str) -> (r: Option<(u8, u8, u8)>)
    ensures
        r == parse_hex_color(s@),
{
    if s.unicode_len() != 7 || s.get_char(0) != '#' {
        return None;
    }
    let mut digits: Vec<u8> = Vec::new();
    let mut i: usize = 1;
    while i < 7
        invariant
            1 <= i <= 7,
            s@.len() == 7,
            digits@.len() == i - 1,
            forall|j: int| 1 <= j < i ==> is_hex_digit(#[trigger] s@[j]),
            forall|j: int| 1 <= j < i ==> digits@[j - 1] == hex_value(#[trigger] s@[j])->Some_0,
        decreases 7 - i,
    {
        match digit_value(s.get_char(i)) {
            Some(d) => digits.push(d),
            None => return None,
        }
        i = i + 1;
    }
    Some((
        digits[0] * 16 + digits[1],
        digits[2] * 16 + digits[3],
        digits[4] * 16 + digits[5],
    ))
}

} // verus!
