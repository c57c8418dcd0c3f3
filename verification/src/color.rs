use vstd::prelude::*;
use crate::error::Error;
use vstd::string::StringSliceAdditionalSpecFns;

verus! {

/// An 8-bit-per-channel colour.
#[derive(Debug, Clone, Copy, PartialEq, Eq, Structural)]
pub struct Rgb {
    pub r: u8,
    pub g: u8,
    pub b: u8,
}

/// `b` is an ASCII hexadecimal digit (`0-9`, `A-F`, `a-f`).
pub open spec fn is_hex_digit(b: u8) -> bool {
    ||| 0x30 <= b <= 0x39
    ||| 0x41 <= b <= 0x46
    ||| 0x61 <= b <= 0x66
}

/// The value (0..16) of a hexadecimal digit.
pub open spec fn hex_value(b: u8) -> int {
    if b <= 0x39 {
        b - 0x30
    } else if b <= 0x46 {
        b - 0x41 + 10
    } else {
        b - 0x61 + 10
    }
}

/// The byte value written by the two hex digits `hi`, `lo`.
pub open spec fn hex_pair(hi: u8, lo: u8) -> u8 {
    (16 * hex_value(hi) + hex_value(lo)) as u8
}

/// What a colour string means, given its bytes: `#RRGGBB`, or `#RGB` where
/// each digit is doubled; anything else is no colour.
pub open spec fn spec_parse_hex(s: Seq<u8>) -> Option<Rgb> {
    if s.len() == 0 || s[0] != 0x23u8 {
        None
    } else if !(forall|i: int| 1 <= i < s.len() ==> is_hex_digit(#[trigger] s[i])) {
        None
    } else if s.len() == 7 {
        Some(Rgb { r: hex_pair(s[1], s[2]), g: hex_pair(s[3], s[4]), b: hex_pair(s[5], s[6]) })
    } else if s.len() == 4 {
        Some(Rgb { r: hex_pair(s[1], s[1]), g: hex_pair(s[2], s[2]), b: hex_pair(s[3], s[3]) })
    } else {
        None
    }
}

/// The value of one hexadecimal digit, or `None` when `b` is not one.
fn hex_digit(b: u8) -> (res: Option<u8>)
    ensures
        match res {
            Some(v) => is_hex_digit(b) && v as int == hex_value(b) && v < 16,
            None => !is_hex_digit(b),
        },
{
    if 0x30 <= b && b <= 0x39 {
        Some(b - 0x30)
    } else if 0x41 <= b && b <= 0x46 {
        Some(b - 0x41 + 10)
    } else if 0x61 <= b && b <= 0x66 {
        Some(b - 0x61 + 10)
    } else {
        None
    }
}

/// Parse the bytes of a hex colour string (see [`spec_parse_hex`]).
pub fn parse_hex_bytes(s: &[u8]) -> (res: Result<Rgb, Error>)
    ensures
        match spec_parse_hex(s@) {
            Some(c) => res == Ok::<Rgb, Error>(c),
            None => res == Err::<Rgb, Error>(Error::InvalidHexColor),
        },
{
    if s.len() == 0 || s[0] != 0x23u8 {
        return Err(Error::InvalidHexColor);
    }
    let n = s.len();
    let mut digits: Vec<u8> = Vec::new();
    let mut i: usize = 1;
    while i < n
        invariant
            n == s@.len(),
            1 <= i <= n,
            digits@.len() == i - 1,
            forall|j: int| 1 <= j < i ==> is_hex_digit(#[trigger] s@[j]),
            forall|j: int| 1 <= j < i ==> digits@[j - 1] as int == hex_value(#[trigger] s@[j]),
            forall|j: int| 0 <= j < digits@.len() ==> #[trigger] digits@[j] < 16,
        decreases n - i,
    {
        match hex_digit(s[i]) {
            Some(v) => digits.push(v),
            None => {
                return Err(Error::InvalidHexColor);
            },
        }
        i = i + 1;
    }
    if n == 7 {
        assert(digits@[0] as int == hex_value(s@[1]));
        assert(digits@[1] as int == hex_value(s@[2]));
        assert(digits@[2] as int == hex_value(s@[3]));
        assert(digits@[3] as int == hex_value(s@[4]));
        assert(digits@[4] as int == hex_value(s@[5]));
        assert(digits@[5] as int == hex_value(s@[6]));
        let r = digits[0] * 16 + digits[1];
        let g = digits[2] * 16 + digits[3];
        let b = digits[4] * 16 + digits[5];
        Ok(Rgb { r, g, b })
    } else if n == 4 {
        assert(digits@[0] as int == hex_value(s@[1]));
        assert(digits@[1] as int == hex_value(s@[2]));
        assert(digits@[2] as int == hex_value(s@[3]));
        let r = digits[0] * 17;
        let g = digits[1] * 17;
        let b = digits[2] * 17;
        Ok(Rgb { r, g, b })
    } else {
        Err(Error::InvalidHexColor)
    }
}

impl Rgb {
    /// Parse a hex colour string like `"#ff8800"` or `"#f80"`.
    ///
    /// The leading `#` is required. The remaining characters must be hex
    /// digits, either 6 (RRGGBB) or 3 (RGB, each digit is doubled).
    pub fn from_hex(s: &str) -> (res: Result<Rgb, Error>)
        ensures
            match spec_parse_hex(s.spec_bytes()) {
                Some(c) => res == Ok::<Rgb, Error>(c),
                None => res == Err::<Rgb, Error>(Error::InvalidHexColor),
            },
    {
        parse_hex_bytes(s.as_bytes())
    }
}

/// `b` is one of the ASCII characters `0`-`9`, `A`-`F`, `a`-`f`.
pub open spec fn ascii_hex_char(b: u8) -> bool {
    ('0' as u8 <= b && b <= '9' as u8) || ('A' as u8 <= b && b <= 'F' as u8) || ('a' as u8 <= b
        && b <= 'f' as u8)
}

/// The number a hexadecimal character stands for: `0`-`9` are 0-9, and
/// `A`/`a` through `F`/`f` are 10 through 15.
pub open spec fn nibble(b: u8) -> int {
    if 'a' as u8 <= b {
        b - 'a' as u8 + 10
    } else if 'A' as u8 <= b {
        b - 'A' as u8 + 10
    } else {
        b - '0' as u8
    }
}

/// The character that writes `d` (0 to 15): `0`-`9`, then `A`-`F` when
/// `upper`, `a`-`f` otherwise.
pub open spec fn digit_char(d: int, upper: bool) -> u8 {
    if d < 10 {
        ('0' as u8 + d) as u8
    } else if upper {
        ('A' as u8 + d - 10) as u8
    } else {
        ('a' as u8 + d - 10) as u8
    }
}

/// The six-digit spelling `#RRGGBB` of a colour, in upper or lower case.
pub open spec fn hex_spelling(c: Rgb, upper: bool) -> Seq<u8> {
    seq![
        '#' as u8,
        digit_char(c.r as int / 16, upper),
        digit_char(c.r as int % 16, upper),
        digit_char(c.g as int / 16, upper),
        digit_char(c.g as int % 16, upper),
        digit_char(c.b as int / 16, upper),
        digit_char(c.b as int % 16, upper),
    ]
}

proof fn lemma_digit_char(d: int, upper: bool)
    requires
        0 <= d < 16,
    ensures
        is_hex_digit(digit_char(d, upper)),
        hex_value(digit_char(d, upper)) == d,
{
}

proof fn lemma_hex_char(b: u8)
    requires
        ascii_hex_char(b),
    ensures
        is_hex_digit(b),
        hex_value(b) == nibble(b),
        0 <= nibble(b) < 16,
{
}

proof fn lemma_pair(x: u8, upper: bool)
    ensures
        hex_pair(digit_char(x as int / 16, upper), digit_char(x as int % 16, upper)) == x,
{
    lemma_digit_char(x as int / 16, upper);
    lemma_digit_char(x as int % 16, upper);
}

/// Every colour, spelled `#RRGGBB` with its channel values as hexadecimal
/// digits, parses back to itself, whether spelled in upper or lower case:
/// each of `0`-`9`, `A`-`F` and `a`-`f` is a digit with its standard value.
pub proof fn law_hex_spelling_parses_back(c: Rgb)
    ensures
        spec_parse_hex(hex_spelling(c, true)) == Some(c),
        spec_parse_hex(hex_spelling(c, false)) == Some(c),
{
    let up = hex_spelling(c, true);
    let lo = hex_spelling(c, false);
    lemma_digit_char(c.r as int / 16, true);
    lemma_digit_char(c.r as int % 16, true);
    lemma_digit_char(c.g as int / 16, true);
    lemma_digit_char(c.g as int % 16, true);
    lemma_digit_char(c.b as int / 16, true);
    lemma_digit_char(c.b as int % 16, true);
    lemma_digit_char(c.r as int / 16, false);
    lemma_digit_char(c.r as int % 16, false);
    lemma_digit_char(c.g as int / 16, false);
    lemma_digit_char(c.g as int % 16, false);
    lemma_digit_char(c.b as int / 16, false);
    lemma_digit_char(c.b as int % 16, false);
    lemma_pair(c.r, true);
    lemma_pair(c.g, true);
    lemma_pair(c.b, true);
    lemma_pair(c.r, false);
    lemma_pair(c.g, false);
    lemma_pair(c.b, false);
    assert(forall|i: int| 1 <= i < up.len() ==> is_hex_digit(#[trigger] up[i]));
    assert(forall|i: int| 1 <= i < lo.len() ==> is_hex_digit(#[trigger] lo[i]));
}

/// `#` followed by six hexadecimal characters (either case) parses to the
/// colour whose channels are the three two-digit numbers they write.
pub proof fn law_six_hex_digits(s: Seq<u8>)
    requires
        s.len() == 7,
        s[0] == '#' as u8,
        forall|i: int| 1 <= i < 7 ==> ascii_hex_char(#[trigger] s[i]),
    ensures
        spec_parse_hex(s) == Some(Rgb {
            r: (16 * nibble(s[1]) + nibble(s[2])) as u8,
            g: (16 * nibble(s[3]) + nibble(s[4])) as u8,
            b: (16 * nibble(s[5]) + nibble(s[6])) as u8,
        }),
{
    assert(ascii_hex_char(s[1]) && ascii_hex_char(s[2]) && ascii_hex_char(s[3]));
    assert(ascii_hex_char(s[4]) && ascii_hex_char(s[5]) && ascii_hex_char(s[6]));
    lemma_hex_char(s[1]);
    lemma_hex_char(s[2]);
    lemma_hex_char(s[3]);
    lemma_hex_char(s[4]);
    lemma_hex_char(s[5]);
    lemma_hex_char(s[6]);
    assert(forall|i: int| 1 <= i < s.len() ==> is_hex_digit(#[trigger] s[i])) by {
        assert forall|i: int| 1 <= i < s.len() implies is_hex_digit(#[trigger] s[i]) by {
            lemma_hex_char(s[i]);
        }
    }
}

/// A string with a character after `#` that is not a hexadecimal digit,
/// or with neither 3 nor 6 characters after `#`, or not starting with `#`,
/// is no colour.
pub proof fn law_malformed_hex_rejected(s: Seq<u8>)
    requires
        s.len() == 0
            || s[0] != '#' as u8
            || (exists|i: int| 1 <= i < s.len() && !ascii_hex_char(#[trigger] s[i]))
            || (s.len() != 4 && s.len() != 7),
    ensures
        spec_parse_hex(s) is None,
{
    if s.len() > 0 && s[0] == '#' as u8 && (exists|i: int| 1 <= i < s.len() && !ascii_hex_char(#[trigger] s[i])) {
        let i = choose|i: int| 1 <= i < s.len() && !ascii_hex_char(#[trigger] s[i]);
        assert(!is_hex_digit(s[i]));
    }
}

/// The three-digit form `#RGB` means the same colour as the six-digit form
/// with every digit doubled, `#RRGGBB`.
pub proof fn law_short_hex_doubles_digits(a: u8, b: u8, c: u8)
    requires
        is_hex_digit(a),
        is_hex_digit(b),
        is_hex_digit(c),
    ensures
        spec_parse_hex(seq![0x23u8, a, b, c]) == spec_parse_hex(seq![0x23u8, a, a, b, b, c, c]),
        spec_parse_hex(seq![0x23u8, a, b, c]) is Some,
{
    let short = seq![0x23u8, a, b, c];
    let long = seq![0x23u8, a, a, b, b, c, c];
    assert(forall|i: int| 1 <= i < short.len() ==> is_hex_digit(#[trigger] short[i]));
    assert(forall|i: int| 1 <= i < long.len() ==> is_hex_digit(#[trigger] long[i]));
}

/// The three quantities that make up a colour converted from HSV: the value
/// `v` and the derived `p = v(1-s)`, `q = v(1-sf)`, `t = v(1-s(1-f))`.
#[derive(Debug, Clone, Copy, PartialEq, Eq, Structural)]
pub enum HsvTerm {
    V,
    P,
    Q,
    T,
}

/// Which of the HSV terms become red, green and blue in hue sector
/// `sector` (taken modulo 6).
pub open spec fn spec_hsv_sector_terms(sector: u32) -> (HsvTerm, HsvTerm, HsvTerm) {
    let s = sector % 6;
    if s == 0 {
        (HsvTerm::V, HsvTerm::T, HsvTerm::P)
    } else if s == 1 {
        (HsvTerm::Q, HsvTerm::V, HsvTerm::P)
    } else if s == 2 {
        (HsvTerm::P, HsvTerm::V, HsvTerm::T)
    } else if s == 3 {
        (HsvTerm::P, HsvTerm::Q, HsvTerm::V)
    } else if s == 4 {
        (HsvTerm::T, HsvTerm::P, HsvTerm::V)
    } else {
        (HsvTerm::V, HsvTerm::P, HsvTerm::Q)
    }
}

/// The red, green and blue terms of an HSV conversion in hue sector
/// `sector` (the integer part of six times the hue), taken modulo 6.
pub fn hsv_sector_terms(sector: u32) -> (res: (HsvTerm, HsvTerm, HsvTerm))
    ensures
        res == spec_hsv_sector_terms(sector),
{
    match sector % 6 {
        0 => (HsvTerm::V, HsvTerm::T, HsvTerm::P),
        1 => (HsvTerm::Q, HsvTerm::V, HsvTerm::P),
        2 => (HsvTerm::P, HsvTerm::V, HsvTerm::T),
        3 => (HsvTerm::P, HsvTerm::Q, HsvTerm::V),
        4 => (HsvTerm::T, HsvTerm::P, HsvTerm::V),
        _ => (HsvTerm::V, HsvTerm::P, HsvTerm::Q),
    }
}

/// Going round the hue circle, the value `v` is the largest channel: red
/// in sectors 0 and 5, green in 1 and 2, blue in 3 and 4; the smallest, `p`,
/// is blue in 0 and 1, red in 2 and 3, green in 4 and 5; the remaining
/// channel rises (`t`) in even sectors and falls (`q`) in odd ones.
pub proof fn law_hsv_sector_shape(sector: u32)
    ensures
        ({
            let (r, g, b) = spec_hsv_sector_terms(sector);
            let s = sector % 6;
            &&& (r == HsvTerm::V) <==> (s == 0 || s == 5)
            &&& (g == HsvTerm::V) <==> (s == 1 || s == 2)
            &&& (b == HsvTerm::V) <==> (s == 3 || s == 4)
            &&& (b == HsvTerm::P) <==> (s == 0 || s == 1)
            &&& (r == HsvTerm::P) <==> (s == 2 || s == 3)
            &&& (g == HsvTerm::P) <==> (s == 4 || s == 5)
            &&& (s % 2 == 0 ==> (r == HsvTerm::T || g == HsvTerm::T || b == HsvTerm::T))
            &&& (s % 2 == 1 ==> (r == HsvTerm::Q || g == HsvTerm::Q || b == HsvTerm::Q))
        }),
{
}

} // verus!
