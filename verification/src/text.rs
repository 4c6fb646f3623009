//! Text the bridge builds or reads: decimal and hexadecimal numbers, the
//! server URL, the accent colour string, and PINs typed by a client.

use vstd::prelude::*;
use vstd::string::*;

verus! {

/// The character of the hexadecimal digit `d` (lower case), for `d < 16`.
pub open spec fn hex_char(d: nat) -> char {
    if d < 10 {
        (('0' as nat) + d) as char
    } else {
        (('a' as nat) + (d - 10)) as char
    }
}

/// The decimal notation of `n`, most significant digit first, no leading zeros.
pub open spec fn decimal_chars(n: nat) -> Seq<char>
    decreases n,
{
    if n < 10 {
        seq![hex_char(n)]
    } else {
        decimal_chars(n / 10).push(hex_char(n % 10))
    }
}

/// Two lower-case hexadecimal digits of a byte, as `{:02x}` writes it.
pub open spec fn hex_byte(b: nat) -> Seq<char> {
    seq![hex_char((b / 16) % 16), hex_char(b % 16)]
}

/// A single-character text holding the digit `d`.
fn digit_text(d: u32) -> (s: &'static str)
    requires
        d < 16,
    ensures
        s@ == seq![hex_char(d as nat)],
{
    match d {
        0 => { proof { reveal_strlit("0"); } "0" },
        1 => { proof { reveal_strlit("1"); } "1" },
        2 => { proof { reveal_strlit("2"); } "2" },
        3 => { proof { reveal_strlit("3"); } "3" },
        4 => { proof { reveal_strlit("4"); } "4" },
        5 => { proof { reveal_strlit("5"); } "5" },
        6 => { proof { reveal_strlit("6"); } "6" },
        7 => { proof { reveal_strlit("7"); } "7" },
        8 => { proof { reveal_strlit("8"); } "8" },
        9 => { proof { reveal_strlit("9"); } "9" },
        10 => { proof { reveal_strlit("a"); } "a" },
        11 => { proof { reveal_strlit("b"); } "b" },
        12 => { proof { reveal_strlit("c"); } "c" },
        13 => { proof { reveal_strlit("d"); } "d" },
        14 => { proof { reveal_strlit("e"); } "e" },
        _ => { proof { reveal_strlit("f"); } "f" },
    }
}

/// Appends the decimal notation of `n` to `out`.
pub fn push_decimal(out: &mut String, n: u32)
    ensures
        final(out)@ == old(out)@ + decimal_chars(n as nat),
    decreases n,
{
    if n >= 10 {
        push_decimal(out, n / 10);
    }
    out.append(digit_text(n % 10));
}


/// Appends the two lower-case hexadecimal digits of `b` to `out`.
pub fn push_hex_byte(out: &mut String, b: u8)
    ensures
        final(out)@ == old(out)@ + hex_byte(b as nat),
{
    out.append(digit_text((b / 16) as u32));
    out.append(digit_text((b % 16) as u32));
    assert(final(out)@ =~= old(out)@ + hex_byte(b as nat));
}

/// The address a browser opens to reach the bridge: `http://{ip}:{port}`.
pub open spec fn url_text(ip: Seq<char>, port: nat) -> Seq<char> {
    seq!['h', 't', 't', 'p', ':', '/', '/'] + ip + seq![':'] + decimal_chars(port)
}

/// Builds `http://{ip}:{port}`.
pub fn server_url(ip: &str, port: u16) -> (url: String)
    ensures
        url@ == url_text(ip@, port as nat),
{
    let mut url = String::new();
    proof {
        reveal_strlit("http://");
        reveal_strlit(":");
    }
    url.append("http://");
    url.append(ip);
    url.append(":");
    push_decimal(&mut url, port as u32);
    assert(url@ =~= url_text(ip@, port as nat));
    url
}

/// The red, green and blue bytes of a DWM colorization value, which stores
/// them in its lowest, second and third byte.
pub open spec fn color_channels(color: u32) -> (nat, nat, nat) {
    ((color as nat) % 256, ((color as nat) / 256) % 256, ((color as nat) / 65536) % 256)
}

/// The CSS notation `#rrggbb` of a colorization value.
pub open spec fn accent_text(color: u32) -> Seq<char> {
    let (r, g, b) = color_channels(color);
    seq!['#'] + hex_byte(r) + hex_byte(g) + hex_byte(b)
}

/// Formats a colorization value as `#rrggbb`, lower case.
pub fn accent_color_hex(colorization: u32) -> (s: String)
    ensures
        s@ == accent_text(colorization),
{
    let r = (colorization & 0xff) as u8;
    let g = ((colorization >> 8) & 0xff) as u8;
    let b = ((colorization >> 16) & 0xff) as u8;
    assert(colorization & 0xff == colorization % 256) by (bit_vector);
    assert((colorization >> 8) & 0xff == (colorization / 256) % 256) by (bit_vector);
    assert((colorization >> 16) & 0xff == (colorization / 65536) % 256) by (bit_vector);
    let mut s = String::new();
    proof {
        reveal_strlit("#");
    }
    s.append("#");
    push_hex_byte(&mut s, r);
    push_hex_byte(&mut s, g);
    push_hex_byte(&mut s, b);
    assert(s@ =~= accent_text(colorization));
    s
}


/// Whether `c` is one of the ASCII digits `0` to `9`.
pub open spec fn is_digit(c: char) -> bool {
    '0' <= c && c <= '9'
}

/// The value of the decimal digit `c`.
pub open spec fn digit_value(c: char) -> nat {
    ((c as int) - ('0' as int)) as nat
}

/// The number that a run of decimal digits denotes.
pub open spec fn digits_value(s: Seq<char>) -> nat
    decreases s.len(),
{
    if s.len() == 0 {
        0
    } else {
        digits_value(s.drop_last()) * 10 + digit_value(s.last())
    }
}

/// Whether every character of `s` is a decimal digit.
pub open spec fn all_digits(s: Seq<char>) -> bool {
    forall|i: int| 0 <= i < s.len() ==> is_digit(#[trigger] s[i])
}

/// The text after an optional leading `+`.
pub open spec fn unsigned_digits(s: Seq<char>) -> Seq<char> {
    if s.len() > 0 && s[0] == '+' {
        s.drop_first()
    } else {
        s
    }
}

/// What `str::parse::<u32>` gives for `s`: an optional `+`, then at least one
/// decimal digit and nothing else, denoting a number that fits in 32 bits.
pub open spec fn parse_u32_text(s: Seq<char>) -> Option<u32> {
    let digits = unsigned_digits(s);
    if digits.len() > 0 && all_digits(digits) && digits_value(digits) <= u32::MAX {
        Some(digits_value(digits) as u32)
    } else {
        None
    }
}

proof fn lemma_digits_value_prefix(s: Seq<char>, i: int)
    requires
        0 <= i < s.len(),
    ensures
        digits_value(s.take(i + 1)) == digits_value(s.take(i)) * 10 + digit_value(s[i]),
{
    assert(s.take(i + 1).drop_last() =~= s.take(i));
}

proof fn lemma_digits_value_monotone(s: Seq<char>, i: int)
    requires
        0 <= i <= s.len(),
    ensures
        digits_value(s.take(i)) <= digits_value(s),
    decreases s.len() - i,
{
    if i < s.len() {
        lemma_digits_value_prefix(s, i);
        lemma_digits_value_monotone(s, i + 1);
    } else {
        assert(s.take(i) =~= s);
    }
}

/// Reads a PIN the way `str::parse::<u32>` does.
pub fn parse_u32(text: &str) -> (r: Option<u32>)
    ensures
        r == parse_u32_text(text@),
{
    let n = text.unicode_len();
    let ghost s = text@;
    let mut i: usize = 0;
    if n > 0 && text.get_char(0) == '+' {
        i = 1;
    }
    let ghost start = i as int;
    let ghost digits = unsigned_digits(s);
    assert(digits =~= s.skip(start));
    if i == n {
        return None;
    }
    let mut acc: u64 = 0;
    while i < n
        invariant
            n == s.len(),
            s == text@,
            0 <= start <= i <= n,
            digits == s.skip(start),
            digits == unsigned_digits(s),
            acc == digits_value(digits.take(i - start)),
            acc <= u32::MAX,
            forall|j: int| 0 <= j < i - start ==> is_digit(#[trigger] digits[j]),
        decreases n - i,
    {
        let c = text.get_char(i);
        if !('0' <= c && c <= '9') {
            assert(!is_digit(digits[i - start]));
            return None;
        }
        proof {
            lemma_digits_value_prefix(digits, i - start);
        }
        let d = (c as u32 - '0' as u32) as u64;
        acc = acc * 10 + d;
        i = i + 1;
        if acc > 0xffff_ffff {
            proof {
                lemma_digits_value_monotone(digits, i - start);
            }
            return None;
        }
    }
    assert(digits.take(i - start) =~= digits);
    Some(acc as u32)
}

} // verus!
