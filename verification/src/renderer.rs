use vstd::prelude::*;
use vstd::string::StrSliceExecFns;

verus! {

/// A hex color text with its leading `#` marks removed.
pub open spec fn skip_hashes(s: Seq<char>) -> Seq<char>
    decreases s.len(),
{
    if s.len() > 0 && s[0] == '#' {
        skip_hashes(s.drop_first())
    } else {
        s
    }
}

/// The value of one hexadecimal digit, or nothing for any other character.
pub open spec fn hex_digit_val(c: char) -> Option<int> {
    if '0' <= c <= '9' {
        Some(c as int - '0' as int)
    } else if 'a' <= c <= 'f' {
        Some(c as int - 'a' as int + 10)
    } else if 'A' <= c <= 'F' {
        Some(c as int - 'A' as int + 10)
    } else {
        None
    }
}

/// The byte two hexadecimal digits denote; a pair that is not two hexadecimal
/// digits reads as zero.
pub open spec fn hex_byte_val(c1: char, c2: char) -> int {
    match (hex_digit_val(c1), hex_digit_val(c2)) {
        (Some(a), Some(b)) => 16 * a + b,
        _ => 0,
    }
}

/// The three channel bytes a `#rrggbb` color text denotes.
pub open spec fn spec_to_rgb(s: Seq<char>) -> (int, int, int) {
    let h = skip_hashes(s);
    (hex_byte_val(h[0], h[1]), hex_byte_val(h[2], h[3]), hex_byte_val(h[4], h[5]))
}

/// Anything that can read itself as a `#rrggbb` terminal color.
pub trait HexToRGB {
    /// The text this value offers for color parsing.
    spec fn hex_text(&self) -> Seq<char>;

    /// Parse `#rrggbb` (with any number of leading `#` marks) into its three
    /// channel bytes; a channel whose two digits are not hexadecimal reads as
    /// zero.
    fn to_rgb(&self) -> (rgb: (u8, u8, u8))
        requires
            skip_hashes(self.hex_text()).len() >= 6,
        ensures
            ({
                let m = spec_to_rgb(self.hex_text());
                rgb.0 == m.0 && rgb.1 == m.1 && rgb.2 == m.2
            }),
    ;
}

fn hex_digit(c: char) -> (v: Option<u8>)
    ensures
        match v {
            Some(b) => hex_digit_val(c) == Some(b as int),
            None => hex_digit_val(c) is None,
        },
{
    if c >= '0' && c <= '9' {
        Some(c as u8 - 48)
    } else if c >= 'a' && c <= 'f' {
        Some(c as u8 - 97 + 10)
    } else if c >= 'A' && c <= 'F' {
        Some(c as u8 - 65 + 10)
    } else {
        None
    }
}

fn hex_byte(c1: char, c2: char) -> (b: u8)
    ensures
        b as int == hex_byte_val(c1, c2),
{
    match (hex_digit(c1), hex_digit(c2)) {
        (Some(a), Some(b)) => 16 * a + b,
        _ => 0,
    }
}

impl HexToRGB for String {
    closed spec fn hex_text(&self) -> Seq<char> {
        self@
    }

    fn to_rgb(&self) -> (rgb: (u8, u8, u8)) {
        let s = self.as_str();
        let n: usize = s.unicode_len();
        let mut i: usize = 0;
        while i < n && s.get_char(i) == '#'
            invariant
                s@ == self@,
                n == s@.len(),
                0 <= i <= n,
                forall|j: int| 0 <= j < i ==> s@[j] == '#',
                skip_hashes(self@).len() >= 6,
            decreases n - i,
        {
            i = i + 1;
        }
        proof {
            lemma_skip_hashes(s@, i as int);
        }
        let r: u8 = hex_byte(s.get_char(i), s.get_char(i + 1));
        let g: u8 = hex_byte(s.get_char(i + 2), s.get_char(i + 3));
        let b: u8 = hex_byte(s.get_char(i + 4), s.get_char(i + 5));
        (r, g, b)
    }
}

/// Skipping the leading `#` marks of a text drops exactly its longest `#`
/// prefix.
proof fn lemma_skip_hashes(s: Seq<char>, i: int)
    requires
        0 <= i <= s.len(),
        forall|j: int| 0 <= j < i ==> s[j] == '#',
        i == s.len() || s[i] != '#',
    ensures
        skip_hashes(s) == s.skip(i),
    decreases i,
{
    if i == 0 {
        assert(s.skip(0) =~= s);
    } else {
        assert(s.len() > 0 && s[0] == '#');
        lemma_skip_hashes(s.drop_first(), i - 1);
        assert(s.drop_first().skip(i - 1) =~= s.skip(i));
    }
}

/// The palette bucket for a day's count: the count's share of the maximum,
/// scaled to the palette and rounded up. No activity — or a window with no
/// activity at all — reads as bucket zero, and the result is clamped into the
/// palette.
pub open spec fn spec_shade_index(count: int, max_count: int, palette_size: int) -> int {
    if max_count <= 0 || count <= 0 {
        0
    } else {
        let c = if count > max_count {
            max_count
        } else {
            count
        };
        let raw = (c * (palette_size - 1) + max_count - 1) / max_count;
        if raw > palette_size - 1 {
            palette_size - 1
        } else {
            raw
        }
    }
}

/// The palette index for a count: `ceil(count / max_count * (palette_size -
/// 1))`, with zero for no activity, an explicit guard for `max_count == 0`,
/// and clamping into `[0, palette_size)`.
pub fn shade_index(count: i64, max_count: i64, palette_size: usize) -> (idx: usize)
    requires
        palette_size >= 1,
    ensures
        idx as int == spec_shade_index(count as int, max_count as int, palette_size as int),
        idx < palette_size,
{
    if max_count <= 0 || count <= 0 {
        return 0;
    }
    let c: i64 = if count > max_count {
        max_count
    } else {
        count
    };
    let ps1: u128 = (palette_size - 1) as u128;
    proof {
        assert((c as u128) * ps1 <= (i64::MAX as u128) * (u64::MAX as u128))
            by (nonlinear_arith)
            requires
                0 < c as u128 <= i64::MAX as u128,
                ps1 <= u64::MAX as u128,
        ;
    }
    let num: u128 = (c as u128) * ps1 + (max_count as u128) - 1;
    let raw: u128 = num / (max_count as u128);
    if raw > ps1 {
        palette_size - 1
    } else {
        raw as usize
    }
}

} // verus!
