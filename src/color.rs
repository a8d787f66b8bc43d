use vstd::prelude::*;

verus! {

/// A colour as red, green, blue and alpha bytes.
#[derive(Debug, Clone, Copy, PartialEq, Eq, Structural)]
pub struct Color {
    pub r: u8,
    pub g: u8,
    pub b: u8,
    pub a: u8,
}

/// Why a colour string was refused.
#[derive(Debug, Clone, Copy, PartialEq, Eq, Structural)]
pub enum ColorError {
    /// Without its `#`, the text is neither six nor eight characters long,
    /// or holds a character outside ASCII.
    InvalidLength,
    /// A two-character channel is not a hexadecimal number.
    InvalidDigit,
}

/// The value of a hexadecimal digit, upper or lower case.
pub open spec fn hex_digit(c: char) -> Option<nat> {
    if '0' <= c && c <= '9' {
        Some((c as nat - '0' as nat) as nat)
    } else if 'a' <= c && c <= 'f' {
        Some((c as nat - 'a' as nat + 10) as nat)
    } else if 'A' <= c && c <= 'F' {
        Some((c as nat - 'A' as nat + 10) as nat)
    } else {
        None
    }
}

/// The byte that a two-character channel such as `"7f"` spells: two
/// hexadecimal digits.
pub open spec fn channel_value(c0: char, c1: char) -> Option<u8> {
    match (hex_digit(c0), hex_digit(c1)) {
        (Some(h), Some(l)) => Some((16 * h + l) as u8),
        _ => None,
    }
}

pub open spec fn all_ascii(s: Seq<char>) -> bool {
    forall|i: int| 0 <= i < s.len() ==> (s[i] as int) < 128
}

/// The text with one leading `#` removed, if it has one.
pub open spec fn without_hash(s: Seq<char>) -> Seq<char> {
    if s.len() > 0 && s[0] == '#' {
        s.subrange(1, s.len() as int)
    } else {
        s
    }
}

/// The first `count` channels of the text, each spelt by two characters.
pub open spec fn channels(s: Seq<char>, count: int) -> Option<Seq<u8>>
    decreases count,
{
    if count <= 0 {
        Some(Seq::empty())
    } else {
        match (channels(s, count - 1), channel_value(s[2 * count - 2], s[2 * count - 1])) {
            (Some(a), Some(v)) => Some(a.push(v)),
            _ => None,
        }
    }
}

/// What parsing `#RRGGBB` or `#AARRGGBB` (the `#` optional, alpha first in the long
/// form) gives for the text `s`.
pub open spec fn parse_color_spec(s: Seq<char>) -> Result<Color, ColorError> {
    let t = without_hash(s);
    if !all_ascii(t) || (t.len() != 6 && t.len() != 8) {
        Err(ColorError::InvalidLength)
    } else if t.len() == 6 {
        match channels(t, 3) {
            None => Err(ColorError::InvalidDigit),
            Some(v) => Ok(Color { r: v[0], g: v[1], b: v[2], a: 255 }),
        }
    } else {
        match channels(t, 4) {
            None => Err(ColorError::InvalidDigit),
            Some(v) => Ok(Color { r: v[1], g: v[2], b: v[3], a: v[0] }),
        }
    }
}

fn hex_digit_of(c: char) -> (r: Option<u8>)
    ensures
        match hex_digit(c) {
            Some(d) => r == Some(d as u8) && d < 16,
            None => r is None,
        },
{
    if '0' <= c && c <= '9' {
        Some((c as u32 - '0' as u32) as u8)
    } else if 'a' <= c && c <= 'f' {
        Some((c as u32 - 'a' as u32 + 10) as u8)
    } else if 'A' <= c && c <= 'F' {
        Some((c as u32 - 'A' as u32 + 10) as u8)
    } else {
        None
    }
}

fn channel_of(c0: char, c1: char) -> (r: Option<u8>)
    ensures
        r == channel_value(c0, c1),
{
    match (hex_digit_of(c0), hex_digit_of(c1)) {
        (Some(h), Some(l)) => Some(16 * h + l),
        _ => None,
    }
}

impl Color {
    /// Parses `#RRGGBB` or `#AARRGGBB`; the `#` may be left out. The short form is
    /// opaque; the long form gives alpha first.
    pub fn parse(s: &str) -> (r: Result<Color, ColorError>)
        ensures
            r == parse_color_spec(s@),
    {
        let n = s.unicode_len();
        let start: usize = if n > 0 && s.get_char(0) == '#' {
            1
        } else {
            0
        };
        let ghost t = without_hash(s@);
        let len = n - start;
        assert(t =~= s@.subrange(start as int, n as int));
        let mut i: usize = start;
        while i < n
            invariant
                start <= i <= n,
                n == s@.len(),
                t =~= s@.subrange(start as int, n as int),
                t == without_hash(s@),
                forall|j: int| 0 <= j < i - start ==> (t[j] as int) < 128,
            decreases n - i,
        {
            if s.get_char(i) as u32 >= 128 {
                assert((t[i - start] as int) >= 128);
                return Err(ColorError::InvalidLength);
            }
            i = i + 1;
        }
        assert(all_ascii(t));
        if len != 6 && len != 8 {
            return Err(ColorError::InvalidLength);
        }
        let mut values: Vec<u8> = Vec::new();
        let count: usize = len / 2;
        let mut k: usize = 0;
        while k < count
            invariant
                count == t.len() / 2,
                t.len() == 6 || t.len() == 8,
                k <= count,
                n == s@.len(),
                t =~= s@.subrange(start as int, n as int),
                t == without_hash(s@),
                start + t.len() == n,
                all_ascii(t),
                channels(t, k as int) is Some,
                values@ == channels(t, k as int)->Some_0,
            decreases count - k,
        {
            let c0 = s.get_char(start + 2 * k);
            let c1 = s.get_char(start + 2 * k + 1);
            let v = channel_of(c0, c1);
            match v {
                None => {
                    proof {
                        lemma_channels_fail(t, k as int, count as int);
                    }
                    return Err(ColorError::InvalidDigit);
                },
                Some(v) => {
                    values.push(v);
                },
            }
            k = k + 1;
        }
        proof {
            lemma_channels_len(t, count as int);
        }
        if len == 6 {
            Ok(Color { r: values[0], g: values[1], b: values[2], a: 255 })
        } else {
            Ok(Color { r: values[1], g: values[2], b: values[3], a: values[0] })
        }
    }
}

proof fn lemma_channels_len(s: Seq<char>, count: int)
    requires
        count >= 0,
        channels(s, count) is Some,
    ensures
        channels(s, count)->Some_0.len() == count,
    decreases count,
{
    if count > 0 {
        lemma_channels_len(s, count - 1);
    }
}

impl std::str::FromStr for Color {
    type Err = ColorError;

    fn from_str(s: &str) -> Result<Color, ColorError> {
        Color::parse(s)
    }
}

/// Once a channel fails to parse, every longer prefix fails too.
proof fn lemma_channels_fail(s: Seq<char>, k: int, count: int)
    requires
        0 <= k < count,
        channel_value(s[2 * k], s[2 * k + 1]) is None,
    ensures
        channels(s, count) is None,
    decreases count,
{
    if count - 1 > k {
        lemma_channels_fail(s, k, count - 1);
    }
}

} // verus!
