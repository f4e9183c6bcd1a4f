//! CSS functional string form of an 8-bit RGB color: `rgb(r,g,b)`, or
//! `rgba(r,g,b,a)` with an already-rendered alpha component.

use vstd::prelude::*;
use vstd::string::StringExecFns;

verus! {

/// The decimal digit character standing for `d`.
pub open spec fn dec_digit_char(d: int) -> char {
    if d == 0 {
        '0'
    } else if d == 1 {
        '1'
    } else if d == 2 {
        '2'
    } else if d == 3 {
        '3'
    } else if d == 4 {
        '4'
    } else if d == 5 {
        '5'
    } else if d == 6 {
        '6'
    } else if d == 7 {
        '7'
    } else if d == 8 {
        '8'
    } else {
        '9'
    }
}

/// The decimal form of one byte value, without leading zeros.
pub open spec fn dec_byte_chars(n: u8) -> Seq<char> {
    if n < 10 {
        seq![dec_digit_char(n as int)]
    } else if n < 100 {
        seq![dec_digit_char(n as int / 10), dec_digit_char(n as int % 10)]
    } else {
        seq![
            dec_digit_char(n as int / 100),
            dec_digit_char((n as int / 10) % 10),
            dec_digit_char(n as int % 10),
        ]
    }
}

/// The numeric value of a decimal digit character, and -1 for every other
/// character.
spec fn dec_digit_val(c: char) -> int {
    if c == '0' {
        0
    } else if c == '1' {
        1
    } else if c == '2' {
        2
    } else if c == '3' {
        3
    } else if c == '4' {
        4
    } else if c == '5' {
        5
    } else if c == '6' {
        6
    } else if c == '7' {
        7
    } else if c == '8' {
        8
    } else if c == '9' {
        9
    } else {
        -1
    }
}

proof fn lemma_dec_digit_char_val(d: int)
    requires
        0 <= d < 10,
    ensures
        dec_digit_val(dec_digit_char(d)) == d,
{
}

proof fn lemma_dec_byte_chars_digits(n: u8)
    ensures
        forall|i: int|
            0 <= i < dec_byte_chars(n).len() ==> dec_digit_val(#[trigger] dec_byte_chars(n)[i])
                >= 0,
{
    let s = dec_byte_chars(n);
    assert forall|i: int| 0 <= i < s.len() implies dec_digit_val(#[trigger] s[i]) >= 0 by {
        if n < 10 {
            lemma_dec_digit_char_val(n as int);
        } else if n < 100 {
            lemma_dec_digit_char_val(n as int / 10);
            lemma_dec_digit_char_val(n as int % 10);
        } else {
            lemma_dec_digit_char_val(n as int / 100);
            lemma_dec_digit_char_val((n as int / 10) % 10);
            lemma_dec_digit_char_val(n as int % 10);
        }
    }
}

proof fn lemma_dec_byte_chars_val(n: u8)
    ensures
        dec_byte_chars(n).len() == (if n < 10 {
            1int
        } else if n < 100 {
            2int
        } else {
            3int
        }),
        n < 10 ==> n as int == dec_digit_val(dec_byte_chars(n)[0]),
        10 <= n < 100 ==> n as int == 10 * dec_digit_val(dec_byte_chars(n)[0]) + dec_digit_val(
            dec_byte_chars(n)[1],
        ),
        100 <= n ==> n as int == 100 * dec_digit_val(dec_byte_chars(n)[0]) + 10 * dec_digit_val(
            dec_byte_chars(n)[1],
        ) + dec_digit_val(dec_byte_chars(n)[2]),
{
    if n < 10 {
        lemma_dec_digit_char_val(n as int);
    } else if n < 100 {
        lemma_dec_digit_char_val(n as int / 10);
        lemma_dec_digit_char_val(n as int % 10);
    } else {
        lemma_dec_digit_char_val(n as int / 100);
        lemma_dec_digit_char_val((n as int / 10) % 10);
        lemma_dec_digit_char_val(n as int % 10);
    }
}

proof fn lemma_dec_byte_chars_injective(n1: u8, n2: u8)
    requires
        dec_byte_chars(n1) == dec_byte_chars(n2),
    ensures
        n1 == n2,
{
    lemma_dec_byte_chars_val(n1);
    lemma_dec_byte_chars_val(n2);
}

fn dec_digit_str(d: u8) -> (s: &'static str)
    requires
        d < 10,
    ensures
        s@ == seq![dec_digit_char(d as int)],
{
    proof {
        reveal_strlit("0");
        reveal_strlit("1");
        reveal_strlit("2");
        reveal_strlit("3");
        reveal_strlit("4");
        reveal_strlit("5");
        reveal_strlit("6");
        reveal_strlit("7");
        reveal_strlit("8");
        reveal_strlit("9");
    }
    let s: &'static str = if d == 0 {
        "0"
    } else if d == 1 {
        "1"
    } else if d == 2 {
        "2"
    } else if d == 3 {
        "3"
    } else if d == 4 {
        "4"
    } else if d == 5 {
        "5"
    } else if d == 6 {
        "6"
    } else if d == 7 {
        "7"
    } else if d == 8 {
        "8"
    } else {
        "9"
    };
    proof {
        assert(s@ =~= seq![dec_digit_char(d as int)]);
    }
    s
}

fn push_dec_byte(out: &mut String, n: u8)
    ensures
        final(out)@ == old(out)@ + dec_byte_chars(n),
{
    if n < 10 {
        out.append(dec_digit_str(n));
    } else if n < 100 {
        out.append(dec_digit_str(n / 10));
        out.append(dec_digit_str(n % 10));
    } else {
        out.append(dec_digit_str(n / 100));
        out.append(dec_digit_str((n / 10) % 10));
        out.append(dec_digit_str(n % 10));
    }
    proof {
        assert(out@ =~= old(out)@ + dec_byte_chars(n));
    }
}

/// The `rgb(r,g,b)` string of three 8-bit channels, each in decimal.
pub open spec fn rgb_string_chars(r: u8, g: u8, b: u8) -> Seq<char> {
    seq!['r', 'g', 'b', '('] + dec_byte_chars(r) + seq![','] + dec_byte_chars(g) + seq![',']
        + dec_byte_chars(b) + seq![')']
}

/// The `rgba(r,g,b,a)` string of three 8-bit channels in decimal, with the
/// alpha component already rendered by the caller.
pub open spec fn rgba_string_chars(r: u8, g: u8, b: u8, alpha: Seq<char>) -> Seq<char> {
    seq!['r', 'g', 'b', 'a', '('] + dec_byte_chars(r) + seq![','] + dec_byte_chars(g) + seq![',']
        + dec_byte_chars(b) + seq![','] + alpha + seq![')']
}

/// Render three 8-bit channels as a CSS `rgb()` string.
pub fn rgb_string(r: u8, g: u8, b: u8) -> (s: String)
    ensures
        s@ == rgb_string_chars(r, g, b),
{
    proof {
        reveal_strlit("rgb(");
        reveal_strlit(",");
        reveal_strlit(")");
    }
    let mut out: String = "rgb(".to_owned();
    push_dec_byte(&mut out, r);
    out.append(",");
    push_dec_byte(&mut out, g);
    out.append(",");
    push_dec_byte(&mut out, b);
    out.append(")");
    proof {
        assert(out@ =~= rgb_string_chars(r, g, b));
    }
    out
}

/// Render three 8-bit channels and an alpha component, given as text, as a
/// CSS `rgba()` string. The alpha component is not an 8-bit channel, so its
/// rendering is the caller's.
pub fn rgba_string(r: u8, g: u8, b: u8, alpha: &str) -> (s: String)
    ensures
        s@ == rgba_string_chars(r, g, b, alpha@),
{
    proof {
        reveal_strlit("rgba(");
        reveal_strlit(",");
        reveal_strlit(")");
    }
    let mut out: String = "rgba(".to_owned();
    push_dec_byte(&mut out, r);
    out.append(",");
    push_dec_byte(&mut out, g);
    out.append(",");
    push_dec_byte(&mut out, b);
    out.append(",");
    out.append(alpha);
    out.append(")");
    proof {
        assert(out@ =~= rgba_string_chars(r, g, b, alpha@));
    }
    out
}

/// Two RGB triples with the same `rgb()` string are the same triple: the
/// decimal components have no leading zeros and the separators are never
/// digits, so the string loses no channel information.
pub proof fn lemma_rgb_string_injective(r1: u8, g1: u8, b1: u8, r2: u8, g2: u8, b2: u8)
    requires
        rgb_string_chars(r1, g1, b1) == rgb_string_chars(r2, g2, b2),
    ensures
        r1 == r2,
        g1 == g2,
        b1 == b2,
{
    let s1 = rgb_string_chars(r1, g1, b1);
    let s2 = rgb_string_chars(r2, g2, b2);
    let lr1 = dec_byte_chars(r1).len() as int;
    let lr2 = dec_byte_chars(r2).len() as int;
    lemma_dec_byte_chars_digits(r1);
    lemma_dec_byte_chars_digits(r2);
    lemma_dec_byte_chars_digits(g1);
    lemma_dec_byte_chars_digits(g2);
    assert(s1[4 + lr1] == ',');
    assert(s2[4 + lr2] == ',');
    if lr1 < lr2 {
        assert(s2[4 + lr1] == dec_byte_chars(r2)[lr1]);
        assert(false);
    }
    if lr2 < lr1 {
        assert(s1[4 + lr2] == dec_byte_chars(r1)[lr2]);
        assert(false);
    }
    assert forall|i: int| 0 <= i < lr1 implies dec_byte_chars(r1)[i] == dec_byte_chars(r2)[i] by {
        assert(s1[4 + i] == dec_byte_chars(r1)[i]);
        assert(s2[4 + i] == dec_byte_chars(r2)[i]);
    }
    assert(dec_byte_chars(r1) =~= dec_byte_chars(r2));
    lemma_dec_byte_chars_injective(r1, r2);
    let lg1 = dec_byte_chars(g1).len() as int;
    let lg2 = dec_byte_chars(g2).len() as int;
    assert(s1[5 + lr1 + lg1] == ',');
    assert(s2[5 + lr2 + lg2] == ',');
    if lg1 < lg2 {
        assert(s2[5 + lr1 + lg1] == dec_byte_chars(g2)[lg1]);
        assert(false);
    }
    if lg2 < lg1 {
        assert(s1[5 + lr2 + lg2] == dec_byte_chars(g1)[lg2]);
        assert(false);
    }
    assert forall|i: int| 0 <= i < lg1 implies dec_byte_chars(g1)[i] == dec_byte_chars(g2)[i] by {
        assert(s1[5 + lr1 + i] == dec_byte_chars(g1)[i]);
        assert(s2[5 + lr2 + i] == dec_byte_chars(g2)[i]);
    }
    assert(dec_byte_chars(g1) =~= dec_byte_chars(g2));
    lemma_dec_byte_chars_injective(g1, g2);
    let lb1 = dec_byte_chars(b1).len() as int;
    let lb2 = dec_byte_chars(b2).len() as int;
    assert(s1.len() == 7 + lr1 + lg1 + lb1);
    assert(s2.len() == 7 + lr2 + lg2 + lb2);
    assert(lb1 == lb2);
    assert forall|i: int| 0 <= i < lb1 implies dec_byte_chars(b1)[i] == dec_byte_chars(b2)[i] by {
        assert(s1[6 + lr1 + lg1 + i] == dec_byte_chars(b1)[i]);
        assert(s2[6 + lr2 + lg2 + i] == dec_byte_chars(b2)[i]);
    }
    assert(dec_byte_chars(b1) =~= dec_byte_chars(b2));
    lemma_dec_byte_chars_injective(b1, b2);
}

} // verus!
