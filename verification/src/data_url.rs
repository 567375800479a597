//! Images shown on the web console: JPEG bytes as a base64 data URL.
use vstd::prelude::*;
use vstd::string::*;

use crate::text::push_char;

verus! {

/// The base64 digit of a 6-bit value: `A`-`Z`, `a`-`z`, `0`-`9`, `+`, `/`.
pub open spec fn b64_digit(v: int) -> char {
    if v < 26 {
        (65 + v) as char
    } else if v < 52 {
        (97 + (v - 26)) as char
    } else if v < 62 {
        (48 + (v - 52)) as char
    } else if v == 62 {
        '+'
    } else {
        '/'
    }
}

/// Standard base64 (RFC 4648, with `=` padding) of a byte string: every three
/// bytes become four digits; a last group of one or two bytes is padded.
pub open spec fn base64_spec(b: Seq<u8>) -> Seq<char>
    decreases b.len(),
{
    if b.len() == 0 {
        Seq::empty()
    } else if b.len() == 1 {
        seq![b64_digit((b[0] as int) / 4), b64_digit(((b[0] as int) % 4) * 16), '=', '=']
    } else if b.len() == 2 {
        seq![b64_digit((b[0] as int) / 4), b64_digit(((b[0] as int) % 4) * 16 + (b[1] as int) / 16), b64_digit(((b[1] as int) % 16) * 4), '=']
    } else {
        seq![
            b64_digit((b[0] as int) / 4),
            b64_digit(((b[0] as int) % 4) * 16 + (b[1] as int) / 16),
            b64_digit(((b[1] as int) % 16) * 4 + (b[2] as int) / 64),
            b64_digit((b[2] as int) % 64),
        ] + base64_spec(b.subrange(3, b.len() as int))
    }
}

fn digit(v: u32) -> (c: char)
    requires
        v < 64,
    ensures
        c == b64_digit(v as int),
{
    if v < 26 {
        let b: u8 = (65 + v) as u8;
        b as char
    } else if v < 52 {
        let b: u8 = (97 + (v - 26)) as u8;
        b as char
    } else if v < 62 {
        let b: u8 = (48 + (v - 52)) as u8;
        b as char
    } else if v == 62 {
        '+'
    } else {
        '/'
    }
}

/// Appends the base64 encoding of `bytes` to `s`.
pub fn push_base64(s: &mut String, bytes: &[u8])
    ensures
        final(s)@ == old(s)@ + base64_spec(bytes@),
{
    let ghost start = s@;
    let n = bytes.len();
    let mut i: usize = 0;
    assert(bytes@.subrange(0, n as int) =~= bytes@);
    while n - i >= 3
        invariant
            n == bytes@.len(),
            i <= n,
            s@ + base64_spec(bytes@.subrange(i as int, n as int)) == start + base64_spec(bytes@),
        decreases n - i,
    {
        let ghost rest = bytes@.subrange(i as int, n as int);
        let b0 = bytes[i] as u32;
        let b1 = bytes[i + 1] as u32;
        let b2 = bytes[i + 2] as u32;
        assert(rest[0] == b0 && rest[1] == b1 && rest[2] == b2);
        assert(rest.subrange(3, rest.len() as int) =~= bytes@.subrange(i + 3, n as int));
        let ghost before = s@;
        push_char(s, digit(b0 / 4));
        push_char(s, digit((b0 % 4) * 16 + b1 / 16));
        push_char(s, digit((b1 % 16) * 4 + b2 / 64));
        push_char(s, digit(b2 % 64));
        proof {
            let g = seq![
                b64_digit((rest[0] as int) / 4),
                b64_digit(((rest[0] as int) % 4) * 16 + (rest[1] as int) / 16),
                b64_digit(((rest[1] as int) % 16) * 4 + (rest[2] as int) / 64),
                b64_digit((rest[2] as int) % 64),
            ];
            assert(s@ =~= before + g);
            assert(base64_spec(rest) == g + base64_spec(bytes@.subrange(i + 3, n as int)));
            assert(before + g + base64_spec(bytes@.subrange(i + 3, n as int)) =~= before + (g
                + base64_spec(bytes@.subrange(i + 3, n as int))));
        }
        i += 3;
    }
    let ghost rest = bytes@.subrange(i as int, n as int);
    let ghost before = s@;
    if n - i == 1 {
        let b0 = bytes[i] as u32;
        assert(rest[0] == b0);
        push_char(s, digit(b0 / 4));
        push_char(s, digit((b0 % 4) * 16));
        push_char(s, '=');
        push_char(s, '=');
        assert(s@ =~= before + base64_spec(rest));
    } else if n - i == 2 {
        let b0 = bytes[i] as u32;
        let b1 = bytes[i + 1] as u32;
        assert(rest[0] == b0 && rest[1] == b1);
        push_char(s, digit(b0 / 4));
        push_char(s, digit((b0 % 4) * 16 + b1 / 16));
        push_char(s, digit((b1 % 16) * 4));
        push_char(s, '=');
        assert(s@ =~= before + base64_spec(rest));
    } else {
        assert(rest.len() == 0);
        assert(s@ =~= before + base64_spec(rest));
    }
}

/// A JPEG image as a data URL: `data:image/jpeg;base64,` and the base64 of its bytes.
pub fn jpeg_data_url(jpeg: &[u8]) -> (r: String)
    ensures
        r@ == "data:image/jpeg;base64,"@ + base64_spec(jpeg@),
{
    let mut s = String::from_str("data:image/jpeg;base64,");
    push_base64(&mut s, jpeg);
    s
}

/// The 6-bit value of a base64 digit: the inverse of `b64_digit`.
pub open spec fn b64_value(c: char) -> int {
    if 'A' <= c <= 'Z' {
        c as int - 65
    } else if 'a' <= c <= 'z' {
        c as int - 97 + 26
    } else if '0' <= c <= '9' {
        c as int - 48 + 52
    } else if c == '+' {
        62
    } else {
        63
    }
}

/// Standard base64 decoding: each group of four digits gives three bytes; a
/// group whose third digit is `=` gives one byte, whose fourth digit is `=`
/// gives two, and ends the text.
pub open spec fn base64_decode(s: Seq<char>) -> Seq<u8>
    decreases s.len(),
{
    if s.len() < 4 {
        Seq::empty()
    } else {
        let a = b64_value(s[0]);
        let b = b64_value(s[1]);
        let c = b64_value(s[2]);
        let d = b64_value(s[3]);
        let x = (a * 4 + b / 16) as u8;
        let y = ((b % 16) * 16 + c / 4) as u8;
        let z = ((c % 4) * 64 + d) as u8;
        if s[2] == '=' {
            seq![x]
        } else if s[3] == '=' {
            seq![x, y]
        } else {
            seq![x, y, z] + base64_decode(s.subrange(4, s.len() as int))
        }
    }
}

proof fn lemma_digit_value(v: int)
    requires
        0 <= v < 64,
    ensures
        b64_value(b64_digit(v)) == v,
        b64_digit(v) != '=',
{
    if v < 26 {
        assert(b64_digit(v) as int == 65 + v);
    } else if v < 52 {
        assert(b64_digit(v) as int == 97 + (v - 26));
    } else if v < 62 {
        assert(b64_digit(v) as int == 48 + (v - 52));
    }
}

proof fn lemma_group_bytes(x: int, y: int, z: int)
    requires
        0 <= x < 256,
        0 <= y < 256,
        0 <= z < 256,
    ensures
        (x / 4) * 4 + ((x % 4) * 16 + y / 16) / 16 == x,
        (((x % 4) * 16 + y / 16) % 16) * 16 + ((y % 16) * 4 + z / 64) / 4 == y,
        (((y % 16) * 4 + z / 64) % 4) * 64 + z % 64 == z,
        (x / 4) * 4 + ((x % 4) * 16) / 16 == x,
        (((x % 4) * 16 + y / 16) % 16) * 16 + ((y % 16) * 4) / 4 == y,
        0 <= x / 4 < 64,
        0 <= (x % 4) * 16 + y / 16 < 64,
        0 <= (y % 16) * 4 + z / 64 < 64,
        0 <= z % 64 < 64,
        0 <= (x % 4) * 16 < 64,
        0 <= (y % 16) * 4 < 64,
{
}

/// Base64 text reads back as the bytes it was written from, and has four
/// digits for every three bytes or fewer.
pub proof fn lemma_base64_round_trip(b: Seq<u8>)
    ensures
        base64_decode(base64_spec(b)) == b,
        base64_spec(b).len() == 4 * ((b.len() + 2) / 3),
    decreases b.len(),
{
    if b.len() == 0 {
    } else if b.len() == 1 {
        let x = b[0] as int;
        lemma_group_bytes(x, 0, 0);
        lemma_digit_value(x / 4);
        lemma_digit_value((x % 4) * 16);
        assert(base64_decode(base64_spec(b)) =~= b);
    } else if b.len() == 2 {
        let x = b[0] as int;
        let y = b[1] as int;
        lemma_group_bytes(x, y, 0);
        lemma_digit_value(x / 4);
        lemma_digit_value((x % 4) * 16 + y / 16);
        lemma_digit_value((y % 16) * 4);
        assert(base64_decode(base64_spec(b)) =~= b);
    } else {
        let x = b[0] as int;
        let y = b[1] as int;
        let z = b[2] as int;
        let rest = b.subrange(3, b.len() as int);
        lemma_group_bytes(x, y, z);
        lemma_digit_value(x / 4);
        lemma_digit_value((x % 4) * 16 + y / 16);
        lemma_digit_value((y % 16) * 4 + z / 64);
        lemma_digit_value(z % 64);
        lemma_base64_round_trip(rest);
        let s = base64_spec(b);
        assert(s.subrange(4, s.len() as int) =~= base64_spec(rest));
        assert(base64_decode(s) =~= seq![b[0], b[1], b[2]] + rest);
        assert(seq![b[0], b[1], b[2]] + rest =~= b);
    }
}

} // verus!
