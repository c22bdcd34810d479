use vstd::prelude::*;
use vstd::string::StrSliceExecFns;
use vstd::string::StringExecFns;

use crate::collection::HashId;

verus! {

pub const HEX_LOWER: [char; 16] = [
    '0',
    '1',
    '2',
    '3',
    '4',
    '5',
    '6',
    '7',
    '8',
    '9',
    'a',
    'b',
    'c',
    'd',
    'e',
    'f',
];

pub const B32_LOWER: [char; 32] = [
    'a',
    'b',
    'c',
    'd',
    'e',
    'f',
    'g',
    'h',
    'i',
    'j',
    'k',
    'l',
    'm',
    'n',
    'o',
    'p',
    'q',
    'r',
    's',
    't',
    'u',
    'v',
    'w',
    'x',
    'y',
    'z',
    '2',
    '3',
    '4',
    '5',
    '6',
    '7',
];

/// The lowercase hex rendering of a byte sequence: two digits per byte,
/// high nibble first.
pub open spec fn hex_of(data: Seq<u8>) -> Seq<char>
    decreases data.len(),
{
    if data.len() == 0 {
        Seq::<char>::empty()
    } else {
        seq![
            HEX_LOWER@[(data.first() >> 4u8) as int],
            HEX_LOWER@[(data.first() & 0x0fu8) as int],
        ] + hex_of(data.drop_first())
    }
}

/// Relies on String::push: appends exactly the one character.
#[verifier::external_body]
pub(crate) fn push_char(s: &mut String, c: char)
    ensures
        final(s)@ == old(s)@.push(c),
{
    s.push(c);
}

/// Relies on hex::encode: the lowercase hex rendering of the bytes, two
/// digits per byte, high nibble first.
#[verifier::external_body]
pub(crate) fn hex_encode(bytes: &Vec<u8>) -> (r: String)
    ensures
        r@ == hex_of(bytes@),
{
    hex::encode(bytes.as_slice())
}

/// Bit `i` of the byte sequence read as a bit stream, most significant
/// bit of each byte first; bits past the end read as zero.
pub open spec fn bit_at(data: Seq<u8>, i: int) -> u8 {
    if 0 <= i < data.len() * 8 {
        (data[i / 8] >> ((7 - (i % 8)) as u8)) & 1u8
    } else {
        0u8
    }
}

/// The value of the first `k` bits of 5-bit group `g`.
pub open spec fn group_val(data: Seq<u8>, g: int, k: int) -> int
    decreases k,
{
    if k <= 0 {
        0
    } else {
        group_val(data, g, k - 1) * 2 + bit_at(data, 5 * g + (k - 1))
    }
}

pub open spec fn pow2_small(k: int) -> int
    decreases k,
{
    if k <= 0 {
        1
    } else {
        2 * pow2_small(k - 1)
    }
}

pub proof fn lemma_bit_at_le_one(data: Seq<u8>, i: int)
    ensures
        0 <= bit_at(data, i) <= 1,
{
    if 0 <= i < data.len() * 8 {
        let x = data[i / 8];
        let sh = (7 - (i % 8)) as u8;
        assert((x >> sh) & 1u8 <= 1) by (bit_vector);
    }
}

pub proof fn lemma_group_val_bound(data: Seq<u8>, g: int, k: int)
    requires
        0 <= k,
    ensures
        0 <= group_val(data, g, k) < pow2_small(k),
    decreases k,
{
    if k > 0 {
        lemma_group_val_bound(data, g, k - 1);
        lemma_bit_at_le_one(data, 5 * g + (k - 1));
    }
}

/// The number of base-32 digits needed for `n` bytes.
pub open spec fn b32_len(n: nat) -> nat {
    ((n * 8 + 4) / 5) as nat
}

/// The lowercase base-32 rendering of a byte sequence: the bit stream cut
/// into 5-bit groups, each group one character of the base-32 alphabet.
pub open spec fn b32_of(data: Seq<u8>) -> Seq<char> {
    Seq::new(b32_len(data.len()), |g: int| B32_LOWER@[group_val(data, g, 5)])
}

/// Renders bytes in lowercase base-32, without padding.
pub fn base32_lower(bytes: &Vec<u8>) -> (r: String)
    requires
        8 * bytes@.len() + 4 <= usize::MAX,
    ensures
        r@ == b32_of(bytes@),
{
    let n = bytes.len();
    let m = (n * 8 + 4) / 5;
    let mut out = String::new();
    let mut g: usize = 0;
    while g < m
        invariant
            g <= m,
            n == bytes@.len(),
            8 * n + 4 <= usize::MAX,
            m == b32_len(bytes@.len()),
            out@ == b32_of(bytes@).take(g as int),
        decreases m - g,
    {
        let mut acc: usize = 0;
        let mut k: usize = 0;
        while k < 5
            invariant
                k <= 5,
                g < m,
                n == bytes@.len(),
                8 * n + 4 <= usize::MAX,
                m == b32_len(bytes@.len()),
                acc == group_val(bytes@, g as int, k as int),
                acc < 32,
            decreases 5 - k,
        {
            proof {
                lemma_group_val_bound(bytes@, g as int, k as int);
                lemma_bit_at_le_one(bytes@, 5 * (g as int) + (k as int));
                assert(5 * g + k < 5 * m) by {
                    assert(5 * g <= 5 * (m - 1));
                }
                assert(5 * m <= 8 * n + 4);
            }
            let idx = 5 * g + k;
            let bit: usize;
            if idx < n * 8 {
                let byte = bytes[idx / 8];
                let sh: u8 = (7 - (idx % 8)) as u8;
                bit = ((byte >> sh) & 1u8) as usize;
                proof {
                    assert(bit == bit_at(bytes@, idx as int));
                }
            } else {
                bit = 0;
                proof {
                    assert(bit_at(bytes@, idx as int) == 0);
                }
            }
            proof {
                lemma_group_val_bound(bytes@, g as int, k as int);
                assert(pow2_small(k as int) <= 16) by {
                    reveal_with_fuel(pow2_small, 6);
                }
            }
            acc = acc * 2 + bit;
            k += 1;
            proof {
                lemma_group_val_bound(bytes@, g as int, k as int);
                assert(pow2_small(k as int) <= 32) by {
                    reveal_with_fuel(pow2_small, 6);
                }
            }
        }
        push_char(&mut out, B32_LOWER[acc]);
        proof {
            assert(b32_of(bytes@)[g as int] == B32_LOWER@[group_val(bytes@, g as int, 5)]);
            assert(out@ =~= b32_of(bytes@).take(g as int + 1));
        }
        g += 1;
    }
    proof {
        assert(b32_of(bytes@).take(m as int) =~= b32_of(bytes@));
    }
    out
}

/// How a content identity is rendered as text.
#[derive(Debug, Clone, Copy, PartialEq, Eq, Structural)]
pub enum Format {
    /// Lowercase hex digits.
    Hex,
    /// The compact form: the lowercase base-32 digits of the bytes,
    /// without padding.
    Cid,
}

/// The three characters spell `hex`, each in either case.
pub open spec fn spells_hex(s: Seq<char>) -> bool {
    &&& s.len() == 3
    &&& (s[0] == 'h' || s[0] == 'H')
    &&& (s[1] == 'e' || s[1] == 'E')
    &&& (s[2] == 'x' || s[2] == 'X')
}

/// The three characters spell `cid`, each in either case.
pub open spec fn spells_cid(s: Seq<char>) -> bool {
    &&& s.len() == 3
    &&& (s[0] == 'c' || s[0] == 'C')
    &&& (s[1] == 'i' || s[1] == 'I')
    &&& (s[2] == 'd' || s[2] == 'D')
}

impl Format {
    /// Parses a format name, ASCII case-insensitively.
    pub fn from_str(s: &str) -> (r: Option<Format>)
        ensures
            (r == Some(Format::Hex)) == spells_hex(s@),
            (r == Some(Format::Cid)) == spells_cid(s@),
            (r is None) == (!spells_hex(s@) && !spells_cid(s@)),
    {
        let n = s.unicode_len();
        if n == 3 {
            let c0 = s.get_char(0);
            let c1 = s.get_char(1);
            let c2 = s.get_char(2);
            if (c0 == 'h' || c0 == 'H') && (c1 == 'e' || c1 == 'E') && (c2 == 'x' || c2 == 'X') {
                return Some(Format::Hex);
            }
            if (c0 == 'c' || c0 == 'C') && (c1 == 'i' || c1 == 'I') && (c2 == 'd' || c2 == 'D') {
                return Some(Format::Cid);
            }
        }
        None
    }

    /// The format's own name.
    pub fn label(&self) -> (r: String)
        ensures
            *self is Hex ==> r@ == "hex"@,
            *self is Cid ==> r@ == "cid"@,
    {
        match self {
            Format::Hex => String::from_str("hex"),
            Format::Cid => String::from_str("cid"),
        }
    }
}

impl Default for Format {
    fn default() -> (r: Self)
        ensures
            r == Format::Hex,
    {
        Format::Hex
    }
}

/// Renders a content identity under the chosen format.
pub fn print_hash(hash: &HashId, format: Format) -> (r: String)
    requires
        8 * hash@.len() + 4 <= usize::MAX,
    ensures
        format is Hex ==> r@ == hex_of(hash@),
        format is Cid ==> r@ == b32_of(hash@),
{
    match format {
        Format::Hex => hex_encode(hash.bytes()),
        Format::Cid => base32_lower(hash.bytes()),
    }
}

} // verus!
