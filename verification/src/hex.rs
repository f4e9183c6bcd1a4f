//! Hex string form of an 8-bit RGBA color: `#rrggbb`, or `#rrggbbaa` when the
//! alpha byte is not 255.

use vstd::prelude::*;
use vstd::string::StringExecFns;

verus! {

/// The lowercase hexadecimal digit character standing for `d`.
pub open spec fn hex_digit_char(d: int) -> char {
    if d == 0 {
        '0'
    } else if d == 1 {
        '1'
    } else if d == 2 {
        '2'
    } else if d == 3 {
        '3'
    } else if d == 4 {
        '4'
    } else if d == 5 {
        '5'
    } else if d == 6 {
        '6'
    } else if d == 7 {
        '7'
    } else if d == 8 {
        '8'
    } else if d == 9 {
        '9'
    } else if d == 10 {
        'a'
    } else if d == 11 {
        'b'
    } else if d == 12 {
        'c'
    } else if d == 13 {
        'd'
    } else if d == 14 {
        'e'
    } else {
        'f'
    }
}

/// The two-digit lowercase hexadecimal form of one byte, high digit first.
pub open spec fn hex_byte_chars(b: u8) -> Seq<char> {
    seq![hex_digit_char(b as int / 16), hex_digit_char(b as int % 16)]
}

fn hex_digit_str(d: u8) -> (s: &'static str)
    requires
        d < 16,
    ensures
        s@ == seq![hex_digit_char(d as int)],
{
    proof {
        reveal_strlit("0");
        reveal_strlit("1");
        reveal_strlit("2");
        reveal_strlit("3");
        reveal_strlit("4");
        reveal_strlit("5");
        reveal_strlit("6");
        reveal_strlit("7");
        reveal_strlit("8");
        reveal_strlit("9");
        reveal_strlit("a");
        reveal_strlit("b");
        reveal_strlit("c");
        reveal_strlit("d");
        reveal_strlit("e");
        reveal_strlit("f");
    }
    let s: &'static str = if d == 0 {
        "0"
    } else if d == 1 {
        "1"
    } else if d == 2 {
        "2"
    } else if d == 3 {
        "3"
    } else if d == 4 {
        "4"
    } else if d == 5 {
        "5"
    } else if d == 6 {
        "6"
    } else if d == 7 {
        "7"
    } else if d == 8 {
        "8"
    } else if d == 9 {
        "9"
    } else if d == 10 {
        "a"
    } else if d == 11 {
        "b"
    } else if d == 12 {
        "c"
    } else if d == 13 {
        "d"
    } else if d == 14 {
        "e"
    } else {
        "f"
    };
    proof {
        assert(s@ =~= seq![hex_digit_char(d as int)]);
    }
    s
}

fn push_hex_byte(out: &mut String, b: u8)
    ensures
        final(out)@ == old(out)@ + hex_byte_chars(b),
{
    out.append(hex_digit_str(b / 16));
    out.append(hex_digit_str(b % 16));
    proof {
        assert(out@ =~= old(out)@ + hex_byte_chars(b));
    }
}

/// The full hex string of an RGBA quadruple: `#`, then two lowercase hex
/// digits for each of red, green and blue, and two more for alpha only when
/// the alpha byte is not 255.
pub open spec fn hex_string_chars(r: u8, g: u8, b: u8, a: u8) -> Seq<char> {
    let opaque = seq!['#'] + hex_byte_chars(r) + hex_byte_chars(g) + hex_byte_chars(b);
    if a == 255 {
        opaque
    } else {
        opaque + hex_byte_chars(a)
    }
}

/// Render four 8-bit channels as a CSS hex color string.
pub fn hex_string(r: u8, g: u8, b: u8, a: u8) -> (s: String)
    ensures
        s@ == hex_string_chars(r, g, b, a),
{
    proof {
        reveal_strlit("#");
    }
    let mut out: String = "#".to_owned();
    push_hex_byte(&mut out, r);
    push_hex_byte(&mut out, g);
    push_hex_byte(&mut out, b);
    if a != 255 {
        push_hex_byte(&mut out, a);
    }
    proof {
        assert(out@ =~= hex_string_chars(r, g, b, a));
    }
    out
}

proof fn lemma_hex_digit_char_injective(d1: int, d2: int)
    requires
        0 <= d1 < 16,
        0 <= d2 < 16,
        hex_digit_char(d1) == hex_digit_char(d2),
    ensures
        d1 == d2,
{
}

proof fn lemma_hex_byte_chars_injective(b1: u8, b2: u8)
    requires
        hex_byte_chars(b1) == hex_byte_chars(b2),
    ensures
        b1 == b2,
{
    assert(hex_byte_chars(b1)[0] == hex_byte_chars(b2)[0]);
    assert(hex_byte_chars(b1)[1] == hex_byte_chars(b2)[1]);
    lemma_hex_digit_char_injective(b1 as int / 16, b2 as int / 16);
    lemma_hex_digit_char_injective(b1 as int % 16, b2 as int % 16);
}

/// Two RGBA quadruples with the same hex string are the same quadruple: the
/// hex form loses no channel information, so a color can be recovered from it.
pub proof fn lemma_hex_string_injective(
    r1: u8,
    g1: u8,
    b1: u8,
    a1: u8,
    r2: u8,
    g2: u8,
    b2: u8,
    a2: u8,
)
    requires
        hex_string_chars(r1, g1, b1, a1) == hex_string_chars(r2, g2, b2, a2),
    ensures
        r1 == r2,
        g1 == g2,
        b1 == b2,
        a1 == a2,
{
    let s1 = hex_string_chars(r1, g1, b1, a1);
    let s2 = hex_string_chars(r2, g2, b2, a2);
    assert(s1.len() == if a1 == 255 { 7int } else { 9int });
    assert(s2.len() == if a2 == 255 { 7int } else { 9int });
    assert(hex_byte_chars(r1) =~= seq![s1[1], s1[2]]);
    assert(hex_byte_chars(g1) =~= seq![s1[3], s1[4]]);
    assert(hex_byte_chars(b1) =~= seq![s1[5], s1[6]]);
    assert(hex_byte_chars(r2) =~= seq![s2[1], s2[2]]);
    assert(hex_byte_chars(g2) =~= seq![s2[3], s2[4]]);
    assert(hex_byte_chars(b2) =~= seq![s2[5], s2[6]]);
    lemma_hex_byte_chars_injective(r1, r2);
    lemma_hex_byte_chars_injective(g1, g2);
    lemma_hex_byte_chars_injective(b1, b2);
    if a1 != 255 {
        assert(hex_byte_chars(a1) =~= seq![s1[7], s1[8]]);
        assert(hex_byte_chars(a2) =~= seq![s2[7], s2[8]]);
        lemma_hex_byte_chars_injective(a1, a2);
    }
}

} // verus!
