//! The codes of RDP8 bulk compression: literals, match distances and match
//! lengths as bit strings.

use vstd::arithmetic::power2::*;
use vstd::prelude::*;

use crate::bit_writer::BitWriter;
use crate::bits;

verus! {

/// The shortest match that has a code of its own.
pub const MIN_MATCH: usize = 3;

/// The largest distance that a match can name.
pub const MAX_DISTANCE: u32 = 4_511_391;

/// One step of a compressed stream.
pub enum Token {
    /// The next byte.
    Literal(u8),
    /// The next `length` bytes repeat those that start `distance` bytes back.
    Match { distance: nat, length: nat },
}

/// The code of one range of match distances: a prefix, then the offset from
/// `base` in `value_bits` bits.
pub struct DistanceCode {
    pub prefix: u32,
    pub prefix_len: u8,
    pub value_bits: u8,
    pub base: u32,
}

/// The short code of a frequent byte: the prefix and its length.
pub open spec fn literal_shortcut(byte: u8) -> Option<(u32, u8)> {
    match byte {
        0x00 => Some((0b11000, 5)),
        0x01 => Some((0b11001, 5)),
        0x02 => Some((0b110100, 6)),
        0x03 => Some((0b110101, 6)),
        0xFF => Some((0b110110, 6)),
        0x04 => Some((0b1101110, 7)),
        0x05 => Some((0b1101111, 7)),
        0x06 => Some((0b1110000, 7)),
        0x07 => Some((0b1110001, 7)),
        0x08 => Some((0b1110010, 7)),
        0x09 => Some((0b1110011, 7)),
        0x0A => Some((0b1110100, 7)),
        0x0B => Some((0b1110101, 7)),
        0x3A => Some((0b1110110, 7)),
        0x3B => Some((0b1110111, 7)),
        0x3C => Some((0b1111000, 7)),
        0x3D => Some((0b1111001, 7)),
        0x3E => Some((0b1111010, 7)),
        0x3F => Some((0b1111011, 7)),
        0x40 => Some((0b1111100, 7)),
        0x80 => Some((0b1111101, 7)),
        0x0C => Some((0b11111100, 8)),
        0x38 => Some((0b11111101, 8)),
        0x39 => Some((0b11111110, 8)),
        0x66 => Some((0b11111111, 8)),
        _ => None,
    }
}

/// The code of the range that holds `distance`.
pub open spec fn distance_code(distance: nat) -> Option<DistanceCode> {
    if distance <= 31 {
        Some(DistanceCode { prefix: 0b10001, prefix_len: 5, value_bits: 5, base: 0 })
    } else if distance <= 159 {
        Some(DistanceCode { prefix: 0b10010, prefix_len: 5, value_bits: 7, base: 32 })
    } else if distance <= 671 {
        Some(DistanceCode { prefix: 0b10011, prefix_len: 5, value_bits: 9, base: 160 })
    } else if distance <= 1695 {
        Some(DistanceCode { prefix: 0b10100, prefix_len: 5, value_bits: 10, base: 672 })
    } else if distance <= 5791 {
        Some(DistanceCode { prefix: 0b10101, prefix_len: 5, value_bits: 12, base: 1696 })
    } else if distance <= 22175 {
        Some(DistanceCode { prefix: 0b101100, prefix_len: 6, value_bits: 14, base: 5792 })
    } else if distance <= 54943 {
        Some(DistanceCode { prefix: 0b101101, prefix_len: 6, value_bits: 15, base: 22176 })
    } else if distance <= 317087 {
        Some(DistanceCode { prefix: 0b1011100, prefix_len: 7, value_bits: 18, base: 54944 })
    } else if distance <= 1365663 {
        Some(DistanceCode { prefix: 0b1011101, prefix_len: 7, value_bits: 20, base: 317088 })
    } else if distance <= 2414239 {
        Some(DistanceCode { prefix: 0b10111100, prefix_len: 8, value_bits: 20, base: 1365664 })
    } else if distance <= MAX_DISTANCE {
        Some(DistanceCode { prefix: 0b10111101, prefix_len: 8, value_bits: 21, base: 2414240 })
    } else {
        None
    }
}

/// The exponent of the largest power of two that is at most `n`.
pub open spec fn floor_log2(n: nat) -> nat
    decreases n,
{
    if n <= 1 {
        0
    } else {
        1 + floor_log2(n / 2)
    }
}

/// The bits of a literal byte.
pub open spec fn literal_bits(byte: u8) -> Seq<bool> {
    match literal_shortcut(byte) {
        Some((prefix, len)) => bits::low_bits(prefix as nat, len as nat),
        None => seq![false] + bits::low_bits(byte as nat, 8),
    }
}

/// The bits of a match distance; none where no range holds it.
pub open spec fn distance_bits(distance: nat) -> Seq<bool> {
    match distance_code(distance) {
        Some(code) => bits::low_bits(code.prefix as nat, code.prefix_len as nat) + bits::low_bits(
            (distance - code.base) as nat,
            code.value_bits as nat,
        ),
        None => Seq::empty(),
    }
}

/// The bits of a match length: a single zero for three; else a one, a further
/// one for each doubling above four, a zero, and the remainder.
pub open spec fn length_bits(length: nat) -> Seq<bool> {
    if length == 3 {
        seq![false]
    } else {
        let k = floor_log2(length);
        seq![true] + Seq::new((if k > 2 { k - 2 } else { 0 }) as nat, |i: int| true) + seq![false]
            + bits::low_bits((length - pow2(k)) as nat, k)
    }
}

/// The bits of a match; none where the distance has no code.
pub open spec fn match_bits(distance: nat, length: nat) -> Seq<bool> {
    if distance <= MAX_DISTANCE {
        distance_bits(distance) + length_bits(length)
    } else {
        Seq::empty()
    }
}

/// The bits of a token.
pub open spec fn token_bits(token: Token) -> Seq<bool> {
    match token {
        Token::Literal(byte) => literal_bits(byte),
        Token::Match { distance, length } => match_bits(distance, length),
    }
}

/// The bits of a token string.
pub open spec fn tokens_bits(tokens: Seq<Token>) -> Seq<bool>
    decreases tokens.len(),
{
    if tokens.len() == 0 {
        Seq::empty()
    } else {
        token_bits(tokens[0]) + tokens_bits(tokens.drop_first())
    }
}

/// The entry of the lookup table for a byte: its short code's length above nine
/// bits of prefix, or zero where it has none.
pub open spec fn lookup_entry(byte: u8) -> u16 {
    match literal_shortcut(byte) {
        Some((prefix, len)) => (len * 512 + prefix) as u16,
        None => 0,
    }
}

/// The bits that a lookup entry stands for.
pub open spec fn entry_bits(entry: u16, byte: u8) -> Seq<bool> {
    if entry != 0 {
        bits::low_bits((entry % 512) as nat, (entry / 512) as nat)
    } else {
        seq![false] + bits::low_bits(byte as nat, 8)
    }
}

/// The lookup entry of a byte stands for the byte's code.
pub proof fn lemma_lookup_entry(byte: u8)
    ensures
        entry_bits(lookup_entry(byte), byte) == literal_bits(byte),
        lookup_entry(byte) / 512 <= 8,
{
}

/// The one exponent whose powers of two enclose a number is its `floor_log2`.
pub proof fn lemma_floor_log2(n: nat, k: nat)
    requires
        pow2(k) <= n < pow2(k + 1),
    ensures
        floor_log2(n) == k,
    decreases k,
{
    lemma2_to64();
    lemma_pow2_unfold(k + 1);
    if k == 0 {
        assert(n == 1);
    } else {
        lemma_pow2_unfold(k);
        lemma_pow2_pos((k - 1) as nat);
        lemma_floor_log2(n / 2, (k - 1) as nat);
    }
}

/// The short code of a frequent byte.
fn shortcut(byte: u8) -> (code: Option<(u32, u8)>)
    ensures
        code == literal_shortcut(byte),
{
    match byte {
        0x00 => Some((0b11000, 5)),
        0x01 => Some((0b11001, 5)),
        0x02 => Some((0b110100, 6)),
        0x03 => Some((0b110101, 6)),
        0xFF => Some((0b110110, 6)),
        0x04 => Some((0b1101110, 7)),
        0x05 => Some((0b1101111, 7)),
        0x06 => Some((0b1110000, 7)),
        0x07 => Some((0b1110001, 7)),
        0x08 => Some((0b1110010, 7)),
        0x09 => Some((0b1110011, 7)),
        0x0A => Some((0b1110100, 7)),
        0x0B => Some((0b1110101, 7)),
        0x3A => Some((0b1110110, 7)),
        0x3B => Some((0b1110111, 7)),
        0x3C => Some((0b1111000, 7)),
        0x3D => Some((0b1111001, 7)),
        0x3E => Some((0b1111010, 7)),
        0x3F => Some((0b1111011, 7)),
        0x40 => Some((0b1111100, 7)),
        0x80 => Some((0b1111101, 7)),
        0x0C => Some((0b11111100, 8)),
        0x38 => Some((0b11111101, 8)),
        0x39 => Some((0b11111110, 8)),
        0x66 => Some((0b11111111, 8)),
        _ => None,
    }
}

/// The lookup table of all bytes.
pub fn literal_lookup_table() -> (table: [u16; 256])
    ensures
        forall|b: u8| #[trigger] table@[b as int] == lookup_entry(b),
{
    let mut table: [u16; 256] = [0; 256];
    let mut b: usize = 0;
    while b < 256
        invariant
            b <= 256,
            forall|c: u8| c < b ==> #[trigger] table@[c as int] == lookup_entry(c),
        decreases 256 - b,
    {
        let entry: u16 = match shortcut(b as u8) {
            Some((prefix, len)) => {
                assert(len <= 8 && prefix < 512 ==> ((len as u16) << 9) | (prefix as u16) == len
                    * 512 + prefix) by (bit_vector);
                ((len as u16) << 9) | (prefix as u16)
            },
            None => 0,
        };
        table[b] = entry;
        b += 1;
    }
    table
}

/// Writes the code of a literal byte that its lookup entry gives.
pub fn write_literal(w: &mut BitWriter, byte: u8, lookup: &[u16; 256])
    requires
        old(w).wf(),
        lookup@[byte as int] / 512 <= 24,
    ensures
        final(w).wf(),
        final(w)@ == old(w)@ + entry_bits(lookup@[byte as int], byte),
{
    let entry: u16 = lookup[byte as usize];
    if entry != 0 {
        assert(entry >> 9 == entry / 512 && entry & 0x1FF == entry % 512) by (bit_vector);
        let plen = (entry >> 9) as u8;
        let pcode = entry & 0x1FF;
        w.write_bits(pcode as u32, plen);
    } else {
        let ghost before = w@;
        w.write_bits(0, 1);
        w.write_bits(byte as u32, 8);
        proof {
            reveal_with_fuel(bits::low_bits, 2);
            assert(bits::low_bits(0, 1) =~= seq![false]);
            assert(w@ =~= before + (seq![false] + bits::low_bits(byte as nat, 8)));
        }
    }
}

/// The code of the range that holds `distance`.
fn find_distance_code(distance: u32) -> (code: Option<DistanceCode>)
    ensures
        code == distance_code(distance as nat),
{
    if distance <= 31 {
        Some(DistanceCode { prefix: 0b10001, prefix_len: 5, value_bits: 5, base: 0 })
    } else if distance <= 159 {
        Some(DistanceCode { prefix: 0b10010, prefix_len: 5, value_bits: 7, base: 32 })
    } else if distance <= 671 {
        Some(DistanceCode { prefix: 0b10011, prefix_len: 5, value_bits: 9, base: 160 })
    } else if distance <= 1695 {
        Some(DistanceCode { prefix: 0b10100, prefix_len: 5, value_bits: 10, base: 672 })
    } else if distance <= 5791 {
        Some(DistanceCode { prefix: 0b10101, prefix_len: 5, value_bits: 12, base: 1696 })
    } else if distance <= 22175 {
        Some(DistanceCode { prefix: 0b101100, prefix_len: 6, value_bits: 14, base: 5792 })
    } else if distance <= 54943 {
        Some(DistanceCode { prefix: 0b101101, prefix_len: 6, value_bits: 15, base: 22176 })
    } else if distance <= 317087 {
        Some(DistanceCode { prefix: 0b1011100, prefix_len: 7, value_bits: 18, base: 54944 })
    } else if distance <= 1365663 {
        Some(DistanceCode { prefix: 0b1011101, prefix_len: 7, value_bits: 20, base: 317088 })
    } else if distance <= 2414239 {
        Some(DistanceCode { prefix: 0b10111100, prefix_len: 8, value_bits: 20, base: 1365664 })
    } else if distance <= MAX_DISTANCE {
        Some(DistanceCode { prefix: 0b10111101, prefix_len: 8, value_bits: 21, base: 2414240 })
    } else {
        None
    }
}

/// Writes the code of a match; a distance that no range holds writes nothing.
pub fn write_match(w: &mut BitWriter, distance: u32, length: usize)
    requires
        old(w).wf(),
        distance <= MAX_DISTANCE ==> 1 <= length < 0x200_0000,
    ensures
        final(w).wf(),
        final(w)@ == old(w)@ + match_bits(distance as nat, length as nat),
{
    let ghost before = w@;
    match find_distance_code(distance) {
        Some(code) => {
            w.write_bits(code.prefix, code.prefix_len);
            w.write_bits(distance - code.base, code.value_bits);
            write_match_length(w, length);
            assert(w@ =~= before + match_bits(distance as nat, length as nat));
        },
        None => {
            assert(w@ =~= before + match_bits(distance as nat, length as nat));
        },
    }
}

/// Writes the code of a match length.
pub fn write_match_length(w: &mut BitWriter, length: usize)
    requires
        old(w).wf(),
        1 <= length < 0x200_0000,
    ensures
        final(w).wf(),
        final(w)@ == old(w)@ + length_bits(length as nat),
{
    let ghost before = w@;
    proof {
        reveal_with_fuel(bits::low_bits, 2);
        assert(bits::low_bits(0, 1) =~= seq![false]);
        assert(bits::low_bits(1, 1) =~= seq![true]);
    }
    if length == 3 {
        w.write_bits(0, 1);
        return ;
    }
    w.write_bits(1, 1);
    let n = length as u32;
    let zeros: u32 = n.leading_zeros();
    proof {
        lemma_leading_zeros(n);
    }
    let k: u8 = (31 - zeros) as u8;
    let mut j: u8 = 2;
    let ghost ones = Seq::new((if k > 2 { k - 2 } else { 0 }) as nat, |i: int| true);
    assert(w@ =~= before + seq![true] + Seq::new(0, |i: int| true));
    while j < k
        invariant
            2 <= j,
            k > 2 ==> j <= k,
            k <= 2 ==> j == 2,
            k <= 24,
            w.wf(),
            bits::low_bits(1, 1) == seq![true],
            w@ == before + seq![true] + Seq::new((j - 2) as nat, |i: int| true),
        decreases k - j,
    {
        w.write_bits(1, 1);
        j += 1;
        assert(Seq::new((j - 2) as nat, |i: int| true) =~= Seq::new((j - 3) as nat, |i: int| true)
            + seq![true]);
        assert(w@ =~= before + seq![true] + Seq::new((j - 2) as nat, |i: int| true));
    }
    assert(ones =~= Seq::new((j - 2) as nat, |i: int| true));
    w.write_bits(0, 1);
    let top: u32 = 1u32 << k;
    assert(n - top < 0x200_0000);
    w.write_bits(n - top, k);
    assert(w@ =~= before + length_bits(length as nat));
}

/// The highest set bit of a number gives its `floor_log2`.
proof fn lemma_leading_zeros(n: u32)
    requires
        1 <= n < 0x200_0000,
    ensures
        n.leading_zeros() <= 31,
        31 - n.leading_zeros() <= 24,
        floor_log2(n as nat) == 31 - n.leading_zeros(),
        (1u32 << ((31 - n.leading_zeros()) as u8)) == pow2((31 - n.leading_zeros()) as nat),
        (1u32 << ((31 - n.leading_zeros()) as u8)) <= n,
{
    vstd::std_specs::bits::axiom_u32_leading_zeros(n);
    let z = n.leading_zeros();
    let k = (31 - z) as u32;
    assert(z <= 31);
    assert((n >> k) & 1 != 0);
    assert(n >> ((k + 1) as u32) == 0);
    let p = 1u32 << k;
    assert(k <= 24 && p <= n && (n as u64) < 2 * (p as u64)) by (bit_vector)
        requires
            n < 0x200_0000,
            k <= 31,
            p == 1u32 << k,
            (n >> k) & 1 != 0,
            n >> ((k + 1) as u32) == 0,
    ;
    vstd::bits::lemma_u32_pow2_no_overflow(k as nat);
    vstd::bits::lemma_u32_shl_is_mul(1, k);
    assert(p == pow2(k as nat));
    lemma_pow2_unfold((k + 1) as nat);
    lemma_floor_log2(n as nat, k as nat);
    assert(1u32 << k == 1u32 << (k as u8)) by (bit_vector)
        requires
            k <= 31,
    ;
}

} // verus!
