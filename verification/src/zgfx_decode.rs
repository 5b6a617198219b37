//! What a decoder makes of a segment, and the laws that tie it to the encoder.
//!
//! The decoder is a specification: it reads tokens bit by bit, and repeats
//! bytes out of the last `HISTORY_SIZE` bytes of its output.

use vstd::arithmetic::power2::*;
use vstd::prelude::*;

use crate::bits;
use crate::zgfx;
use crate::zgfx::HISTORY_SIZE;
use crate::zgfx_codes;
use crate::zgfx_codes::{Token, MAX_DISTANCE, MIN_MATCH};

verus! {

/// What follows a prefix: a number of `value_bits` bits, to be added to `base`.
pub enum Code {
    Literal { value_bits: nat, base: nat },
    Match { value_bits: nat, base: nat },
}

/// The code with the prefix `prefix` of `len` bits.
pub open spec fn code_of(len: nat, prefix: nat) -> Option<Code> {
    if len == 1 && prefix == 0 {
        Some(Code::Literal { value_bits: 8, base: 0 })
    } else if len == 5 && prefix == 17 {
        Some(Code::Match { value_bits: 5, base: 0 })
    } else if len == 5 && prefix == 18 {
        Some(Code::Match { value_bits: 7, base: 32 })
    } else if len == 5 && prefix == 19 {
        Some(Code::Match { value_bits: 9, base: 160 })
    } else if len == 5 && prefix == 20 {
        Some(Code::Match { value_bits: 10, base: 672 })
    } else if len == 5 && prefix == 21 {
        Some(Code::Match { value_bits: 12, base: 1696 })
    } else if len == 5 && 24 <= prefix <= 25 {
        Some(Code::Literal { value_bits: 0, base: (prefix - 24) as nat })
    } else if len == 6 && prefix == 44 {
        Some(Code::Match { value_bits: 14, base: 5792 })
    } else if len == 6 && prefix == 45 {
        Some(Code::Match { value_bits: 15, base: 22176 })
    } else if len == 6 && 52 <= prefix <= 53 {
        Some(Code::Literal { value_bits: 0, base: (prefix - 50) as nat })
    } else if len == 6 && prefix == 54 {
        Some(Code::Literal { value_bits: 0, base: 0xFF })
    } else if len == 7 && prefix == 92 {
        Some(Code::Match { value_bits: 18, base: 54944 })
    } else if len == 7 && prefix == 93 {
        Some(Code::Match { value_bits: 20, base: 317088 })
    } else if len == 7 && 110 <= prefix <= 117 {
        Some(Code::Literal { value_bits: 0, base: (prefix - 106) as nat })
    } else if len == 7 && 118 <= prefix <= 124 {
        Some(Code::Literal { value_bits: 0, base: (prefix - 60) as nat })
    } else if len == 7 && prefix == 125 {
        Some(Code::Literal { value_bits: 0, base: 0x80 })
    } else if len == 8 && prefix == 188 {
        Some(Code::Match { value_bits: 20, base: 1365664 })
    } else if len == 8 && prefix == 189 {
        Some(Code::Match { value_bits: 21, base: 2414240 })
    } else if len == 8 && prefix == 252 {
        Some(Code::Literal { value_bits: 0, base: 0x0C })
    } else if len == 8 && 253 <= prefix <= 254 {
        Some(Code::Literal { value_bits: 0, base: (prefix - 197) as nat })
    } else if len == 8 && prefix == 255 {
        Some(Code::Literal { value_bits: 0, base: 0x66 })
    } else if len == 9 && prefix == 380 {
        Some(Code::Match { value_bits: 22, base: 4511392 })
    } else if len == 9 && prefix == 381 {
        Some(Code::Match { value_bits: 23, base: 8705696 })
    } else if len == 9 && prefix == 382 {
        Some(Code::Match { value_bits: 24, base: 17094304 })
    } else {
        None
    }
}

/// The shortest prefix of at least `len` bits that `bits` starts with, and its
/// code.
pub open spec fn find_code(bits: Seq<bool>, len: nat) -> Option<(nat, Code)>
    decreases 10 - len,
{
    if len > 9 || len > bits.len() {
        None
    } else {
        match code_of(len, bits::bits_value(bits.take(len as int))) {
            Some(code) => Some((len, code)),
            None => find_code(bits, len + 1),
        }
    }
}

/// Reads a number of `len` bits; also gives what follows it.
pub open spec fn read_number(bits: Seq<bool>, len: nat) -> Option<(nat, Seq<bool>)> {
    if len > bits.len() {
        None
    } else {
        Some((bits::bits_value(bits.take(len as int)), bits.skip(len as int)))
    }
}

/// Reads what follows the first one of a match length: `len` grows by one with
/// each further one, and after the zero a number of `len` bits is added to two
/// to the `len`.
pub open spec fn read_long_length(bits: Seq<bool>, len: nat) -> Option<(nat, Seq<bool>)>
    decreases bits.len(),
{
    if bits.len() == 0 {
        None
    } else if bits[0] {
        read_long_length(bits.skip(1), len + 1)
    } else {
        match read_number(bits.skip(1), len) {
            Some((value, rest)) => Some((pow2(len) + value, rest)),
            None => None,
        }
    }
}

/// Reads a match length.
pub open spec fn read_length(bits: Seq<bool>) -> Option<(nat, Seq<bool>)> {
    if bits.len() == 0 {
        None
    } else if bits[0] {
        read_long_length(bits.skip(1), 2)
    } else {
        Some((3, bits.skip(1)))
    }
}

/// Reads a token. The distance zero, which announces a run of raw bytes, is
/// not accepted.
pub open spec fn read_token(bits: Seq<bool>) -> Option<(Token, Seq<bool>)> {
    match find_code(bits, 1) {
        None => None,
        Some((len, Code::Literal { value_bits, base })) => match read_number(
            bits.skip(len as int),
            value_bits,
        ) {
            Some((value, rest)) => Some((Token::Literal((base + value) as u8), rest)),
            None => None,
        },
        Some((len, Code::Match { value_bits, base })) => match read_number(
            bits.skip(len as int),
            value_bits,
        ) {
            Some((value, rest)) => if base + value == 0 {
                None
            } else {
                match read_length(rest) {
                    Some((length, rest)) => Some(
                        (Token::Match { distance: base + value, length }, rest),
                    ),
                    None => None,
                }
            },
            None => None,
        },
    }
}

/// Reads tokens up to the end of `bits`.
pub open spec fn read_tokens(bits: Seq<bool>) -> Option<Seq<Token>>
    decreases bits.len(),
{
    if bits.len() == 0 {
        Some(Seq::empty())
    } else {
        match read_token(bits) {
            Some((token, rest)) => if rest.len() >= bits.len() {
                None
            } else {
                match read_tokens(rest) {
                    Some(tokens) => Some(seq![token] + tokens),
                    None => None,
                }
            },
            None => None,
        }
    }
}

/// `out` with `length` bytes appended, each equal to the byte `distance` before
/// it; bytes before the start of the output are zero.
pub open spec fn repeat(out: Seq<u8>, distance: nat, length: nat) -> Seq<u8>
    decreases length,
{
    if length == 0 {
        out
    } else {
        repeat(
            out.push(
                if distance <= out.len() {
                    out[out.len() - distance]
                } else {
                    0
                },
            ),
            distance,
            (length - 1) as nat,
        )
    }
}

/// The output that `tokens` make when appended to `out`; none where a match
/// reaches further back than the history.
pub open spec fn expand(out: Seq<u8>, tokens: Seq<Token>) -> Option<Seq<u8>>
    decreases tokens.len(),
{
    if tokens.len() == 0 {
        Some(out)
    } else {
        match tokens[0] {
            Token::Literal(byte) => expand(out.push(byte), tokens.drop_first()),
            Token::Match { distance, length } => if distance > HISTORY_SIZE {
                None
            } else {
                expand(repeat(out, distance, length), tokens.drop_first())
            },
        }
    }
}

/// The data that a segment carries.
pub open spec fn decompress(segment: Seq<u8>) -> Option<Seq<u8>> {
    if segment.len() == 0 {
        None
    } else if segment[0] & 0x20 == 0 {
        Some(segment.drop_first())
    } else {
        match bits::unpack(segment.drop_first()) {
            Some(stream) => match read_tokens(stream) {
                Some(tokens) => expand(Seq::empty(), tokens),
                None => None,
            },
            None => None,
        }
    }
}

/// Whether a token has a code that reads back as the token.
pub open spec fn has_code(token: Token) -> bool {
    match token {
        Token::Literal(byte) => true,
        Token::Match { distance, length } => 1 <= distance <= MAX_DISTANCE && MIN_MATCH <= length,
    }
}

/// A bit string that starts with the digits of a prefix starts with the digits
/// of its quotients.
proof fn lemma_prefix_values(stream: Seq<bool>, prefix: nat, len: nat)
    requires
        len <= 9,
        prefix < pow2(len),
        stream.len() >= len,
        stream.take(len as int) == bits::low_bits(prefix, len),
    ensures
        forall|n: nat|
            n <= len ==> bits::bits_value(#[trigger] stream.take(n as int)) == prefix / pow2(
                (len - n) as nat,
            ),
{
    assert forall|n: nat| n <= len implies bits::bits_value(#[trigger] stream.take(n as int))
        == prefix / pow2((len - n) as nat) by {
        bits::lemma_value_of_first_bits(prefix, len, n);
        assert(stream.take(len as int).take(n as int) =~= stream.take(n as int));
    }
}

/// No code's prefix starts with another code's prefix.
proof fn lemma_prefix_free(prefix: nat, len: nat, shorter: nat)
    requires
        code_of(len, prefix) is Some,
        shorter < len,
    ensures
        code_of(shorter, prefix / pow2((len - shorter) as nat)) is None,
{
    lemma2_to64();
    let cut = (len - shorter) as nat;
    assert(cut == 1 ==> prefix / pow2(cut) == prefix / 2);
    assert(cut == 2 ==> prefix / pow2(cut) == prefix / 4);
    assert(cut == 3 ==> prefix / pow2(cut) == prefix / 8);
    assert(cut == 4 ==> prefix / pow2(cut) == prefix / 16);
    assert(cut == 5 ==> prefix / pow2(cut) == prefix / 32);
    assert(cut == 6 ==> prefix / pow2(cut) == prefix / 64);
    assert(cut == 7 ==> prefix / pow2(cut) == prefix / 128);
    assert(cut == 8 ==> prefix / pow2(cut) == prefix / 256);
}

/// A stream that starts with a code's prefix starts with that code.
proof fn lemma_find_code(stream: Seq<bool>, prefix: nat, len: nat, from: nat)
    requires
        1 <= from <= len,
        stream.len() >= len,
        stream.take(len as int) == bits::low_bits(prefix, len),
        code_of(len, prefix) is Some,
    ensures
        find_code(stream, from) == Some((len, code_of(len, prefix).unwrap())),
    decreases len - from,
{
    lemma2_to64();
    lemma_prefix_values(stream, prefix, len);
    assert(bits::bits_value(stream.take(from as int)) == prefix / pow2((len - from) as nat));
    if from < len {
        lemma_prefix_free(prefix, len, from);
        lemma_find_code(stream, prefix, len, from + 1);
    } else {
        assert(pow2(0) == 1);
        assert(prefix / 1 == prefix);
    }
}

/// Digits that are written are read back.
proof fn lemma_read_number(value: nat, len: nat, rest: Seq<bool>)
    requires
        value < pow2(len),
    ensures
        read_number(bits::low_bits(value, len) + rest, len) == Some((value, rest)),
{
    bits::lemma_low_bits_len(value, len);
    bits::lemma_value_of_low_bits(value, len);
    vstd::arithmetic::div_mod::lemma_small_mod(value, pow2(len));
    let stream = bits::low_bits(value, len) + rest;
    assert(stream.take(len as int) =~= bits::low_bits(value, len));
    assert(stream.skip(len as int) =~= rest);
}

/// A match length is read back from its bits.
proof fn lemma_read_long_length(value: nat, len: nat, ones: nat, rest: Seq<bool>)
    requires
        value < pow2(len + ones),
    ensures
        read_long_length(
            Seq::new(ones, |i: int| true) + seq![false] + bits::low_bits(value, len + ones) + rest,
            len,
        ) == Some((pow2(len + ones) + value, rest)),
    decreases ones,
{
    let tail = seq![false] + bits::low_bits(value, len + ones) + rest;
    let stream = Seq::new(ones, |i: int| true) + seq![false] + bits::low_bits(value, len + ones)
        + rest;
    if ones == 0 {
        assert(stream.skip(1) =~= bits::low_bits(value, len) + rest);
        lemma_read_number(value, len, rest);
    } else {
        let fewer = (ones - 1) as nat;
        lemma_read_long_length(value, len + 1, fewer, rest);
        assert(len + 1 + fewer == len + ones);
        assert(stream.skip(1) =~= Seq::new(fewer, |i: int| true) + seq![false] + bits::low_bits(
            value,
            len + ones,
        ) + rest);
    }
}

/// A number lies between the powers of two at its `floor_log2`.
proof fn lemma_floor_log2_bounds(n: nat)
    requires
        n >= 1,
    ensures
        pow2(zgfx_codes::floor_log2(n)) <= n < pow2(zgfx_codes::floor_log2(n) + 1),
    decreases n,
{
    lemma2_to64();
    if n > 1 {
        lemma_floor_log2_bounds(n / 2);
        let k = zgfx_codes::floor_log2(n / 2);
        lemma_pow2_unfold(k + 1);
        lemma_pow2_unfold(k + 2);
    }
}

/// A match length is read back from its bits.
proof fn lemma_read_length(length: nat, rest: Seq<bool>)
    requires
        length >= 3,
    ensures
        read_length(zgfx_codes::length_bits(length) + rest) == Some((length, rest)),
{
    let stream = zgfx_codes::length_bits(length) + rest;
    if length == 3 {
        assert(stream.skip(1) =~= rest);
    } else {
        let k = zgfx_codes::floor_log2(length);
        lemma_floor_log2_bounds(length);
        lemma2_to64();
        lemma_pow2_unfold(k + 1);
        reveal_with_fuel(zgfx_codes::floor_log2, 3);
        assert(k >= 2);
        let value = (length - pow2(k)) as nat;
        lemma_read_long_length(value, 2, (k - 2) as nat, rest);
        assert(2 + (k - 2) as nat == k);
        assert(stream.skip(1) =~= Seq::new((k - 2) as nat, |i: int| true) + seq![false]
            + bits::low_bits(value, k) + rest);
    }
}

/// A short code is the prefix of its byte.
proof fn lemma_shortcut_code(byte: u8)
    ensures
        zgfx_codes::literal_shortcut(byte) matches Some((prefix, len)) ==> len > 0 && code_of(
            len as nat,
            prefix as nat,
        ) == Some(Code::Literal { value_bits: 0, base: byte as nat }),
{
}

/// A literal is read back from its bits.
proof fn lemma_read_literal(byte: u8, rest: Seq<bool>)
    ensures
        read_token(zgfx_codes::literal_bits(byte) + rest) == Some((Token::Literal(byte), rest)),
        zgfx_codes::literal_bits(byte).len() > 0,
{
    let stream = zgfx_codes::literal_bits(byte) + rest;
    lemma_shortcut_code(byte);
    match zgfx_codes::literal_shortcut(byte) {
        Some((prefix, len)) => {
            bits::lemma_low_bits_len(prefix as nat, len as nat);
            assert(stream.take(len as int) =~= bits::low_bits(prefix as nat, len as nat));
            lemma_find_code(stream, prefix as nat, len as nat, 1);
            lemma2_to64();
            lemma_read_number(0, 0, rest);
            assert(stream.skip(len as int) =~= bits::low_bits(0, 0) + rest);
        },
        None => {
            assert(bits::low_bits(0, 1) =~= seq![false]) by {
                reveal_with_fuel(bits::low_bits, 2);
            }
            assert(stream.take(1) =~= bits::low_bits(0, 1));
            lemma_find_code(stream, 0, 1, 1);
            lemma2_to64();
            lemma_read_number(byte as nat, 8, rest);
            assert(stream.skip(1) =~= bits::low_bits(byte as nat, 8) + rest);
        },
    }
}

/// A distance code is the prefix of its range, and the range's offsets fit.
proof fn lemma_distance_code(distance: nat)
    requires
        distance <= MAX_DISTANCE,
    ensures
        ({
            let code = zgfx_codes::distance_code(distance).unwrap();
            &&& zgfx_codes::distance_code(distance) is Some
            &&& code.prefix_len > 0
            &&& code.base <= distance
            &&& distance - code.base < pow2(code.value_bits as nat)
            &&& code_of(code.prefix_len as nat, code.prefix as nat) == Some(
                Code::Match { value_bits: code.value_bits as nat, base: code.base as nat },
            )
        }),
{
    lemma2_to64();
}

/// A match is read back from its bits.
proof fn lemma_read_match(distance: nat, length: nat, rest: Seq<bool>)
    requires
        1 <= distance <= MAX_DISTANCE,
        MIN_MATCH <= length,
    ensures
        read_token(zgfx_codes::match_bits(distance, length) + rest) == Some(
            (Token::Match { distance, length }, rest),
        ),
        zgfx_codes::match_bits(distance, length).len() > 0,
{
    let stream = zgfx_codes::match_bits(distance, length) + rest;
    lemma_distance_code(distance);
    let code = zgfx_codes::distance_code(distance).unwrap();
    let prefix = code.prefix as nat;
    let len = code.prefix_len as nat;
    let width = code.value_bits as nat;
    let value = (distance - code.base) as nat;
    let tail = zgfx_codes::length_bits(length) + rest;
    bits::lemma_low_bits_len(prefix, len);
    assert(zgfx_codes::distance_bits(distance) == bits::low_bits(prefix, len) + bits::low_bits(
        value,
        width,
    ));
    assert(stream.take(len as int) =~= bits::low_bits(prefix, len));
    lemma_find_code(stream, prefix, len, 1);
    lemma_read_number(value, width, tail);
    assert(stream.skip(len as int) =~= bits::low_bits(value, width) + tail);
    lemma_read_length(length, rest);
}

/// A token is read back from its bits.
proof fn lemma_read_token(token: Token, rest: Seq<bool>)
    requires
        has_code(token),
    ensures
        read_token(zgfx_codes::token_bits(token) + rest) == Some((token, rest)),
        zgfx_codes::token_bits(token).len() > 0,
{
    match token {
        Token::Literal(byte) => lemma_read_literal(byte, rest),
        Token::Match { distance, length } => lemma_read_match(distance, length, rest),
    }
}

/// The codes are unambiguous: tokens are read back from their bits.
pub proof fn tokens_are_read_back(tokens: Seq<Token>)
    requires
        forall|i: int| 0 <= i < tokens.len() ==> has_code(#[trigger] tokens[i]),
    ensures
        read_tokens(zgfx_codes::tokens_bits(tokens)) == Some(tokens),
    decreases tokens.len(),
{
    if tokens.len() > 0 {
        let tail = tokens.drop_first();
        assert forall|i: int| 0 <= i < tail.len() implies has_code(#[trigger] tail[i]) by {
            assert(tail[i] == tokens[i + 1]);
        }
        tokens_are_read_back(tail);
        lemma_read_token(tokens[0], zgfx_codes::tokens_bits(tail));
        assert(seq![tokens[0]] + tail =~= tokens);
    } else {
        assert(tokens =~= Seq::empty());
    }
}

/// What a repeat appends: bytes that equal those `distance` before them.
proof fn lemma_repeat(out: Seq<u8>, distance: nat, length: nat)
    ensures
        repeat(out, distance, length).len() == out.len() + length,
        repeat(out, distance, length).take(out.len() as int) == out,
        1 <= distance <= out.len() ==> forall|i: int|
            out.len() <= i < out.len() + length ==> #[trigger] repeat(out, distance, length)[i]
                == repeat(out, distance, length)[i - distance],
    decreases length,
{
    let all = repeat(out, distance, length);
    if length > 0 {
        let next = out.push(
            if distance <= out.len() {
                out[out.len() - distance]
            } else {
                0
            },
        );
        lemma_repeat(next, distance, (length - 1) as nat);
        assert(all.take(next.len() as int) == next);
        assert(all.take(out.len() as int) =~= next.take(out.len() as int));
        assert(next.take(out.len() as int) =~= out);
        if 1 <= distance <= out.len() {
            assert forall|i: int| out.len() <= i < out.len() + length implies #[trigger] all[i]
                == all[i - distance] by {
                if i == out.len() {
                    assert(all[i] == all.take(next.len() as int)[i]);
                    assert(all[i - distance] == all.take(next.len() as int)[i - distance]);
                }
            }
        }
    } else {
        assert(all.take(out.len() as int) =~= out);
    }
}

/// A repeat rebuilds the next bytes of `data` where these repeat.
proof fn lemma_repeat_rebuilds(data: Seq<u8>, pos: int, distance: nat, length: nat)
    requires
        1 <= distance <= pos,
        pos + length <= data.len(),
        zgfx::agree(data, pos - distance, pos, length as int),
    ensures
        repeat(data.take(pos), distance, length) == data.take(pos + length),
{
    let out = data.take(pos);
    let want = data.take(pos + length);
    lemma_repeat(out, distance, length);
    assert(want.take(pos) =~= out);
    lemma_same_repeat(repeat(out, distance, length), want, pos, distance, length);
}

/// Two strings with a common start that repeat alike are equal.
proof fn lemma_same_repeat(a: Seq<u8>, b: Seq<u8>, pos: int, distance: nat, length: nat)
    requires
        1 <= distance <= pos,
        a.len() == b.len() == pos + length,
        a.take(pos) == b.take(pos),
        forall|i: int| pos <= i < pos + length ==> #[trigger] a[i] == a[i - distance],
        forall|j: int| 0 <= j < length ==> b[pos - distance + j] == #[trigger] b[pos + j],
    ensures
        a == b,
    decreases length,
{
    if length == 0 {
        assert(a.take(pos) =~= a && b.take(pos) =~= b);
    } else {
        assert(a[pos] == a.take(pos)[pos - distance]);
        assert(b[pos + 0] == b[pos - distance + 0]);
        assert(b[pos] == b.take(pos)[pos - distance]);
        assert(a.take(pos + 1) =~= a.take(pos).push(a[pos]));
        assert(b.take(pos + 1) =~= b.take(pos).push(b[pos]));
        assert forall|j: int| 0 <= j < length - 1 implies b[pos + 1 - distance + j]
            == #[trigger] b[pos + 1 + j] by {
            assert(b[pos - distance + (j + 1)] == b[pos + (j + 1)]);
        }
        lemma_same_repeat(a, b, pos + 1, distance, (length - 1) as nat);
    }
}

/// No match reaches further back than the history of a decoder.
pub proof fn matches_stay_within_the_history(data: Seq<u8>, pos: int, i: int)
    requires
        0 <= pos,
        0 <= i < zgfx::tokens_from(data, pos).len(),
    ensures
        zgfx::tokens_from(data, pos)[i] matches Token::Match { distance, length } ==> 1 <= distance
            <= HISTORY_SIZE && MIN_MATCH <= length,
    decreases i,
{
    if zgfx::has_match(data, pos) {
        zgfx::lemma_best_match(data, pos);
    }
    if i > 0 {
        let next = pos + zgfx::step_at(data, pos);
        assert(zgfx::tokens_from(data, pos)[i] == zgfx::tokens_from(data, next)[i - 1]);
        matches_stay_within_the_history(data, next, i - 1);
    }
}

/// A decoder that has rebuilt `data` up to `pos` rebuilds the rest from the
/// tokens there.
proof fn lemma_expand_rebuilds(data: Seq<u8>, pos: int)
    requires
        0 <= pos <= data.len(),
    ensures
        expand(data.take(pos), zgfx::tokens_from(data, pos)) == Some(data),
    decreases data.len() - pos,
{
    if pos == data.len() {
        assert(data.take(pos) =~= data);
    } else {
        let next = pos + zgfx::step_at(data, pos);
        if zgfx::has_match(data, pos) {
            zgfx::lemma_best_match(data, pos);
            let (length, distance) = zgfx::best_match(data, pos);
            lemma_repeat_rebuilds(data, pos, distance as nat, length);
        } else {
            assert(data.take(pos).push(data[pos]) =~= data.take(next));
        }
        lemma_expand_rebuilds(data, next);
        assert(zgfx::tokens_from(data, pos).drop_first() =~= zgfx::tokens_from(data, next));
    }
}

/// Compression is lossless: the segment of any data decodes to the data.
pub proof fn compression_is_lossless(data: Seq<u8>)
    ensures
        decompress(zgfx::segment(data)) == Some(data),
{
    let segment = zgfx::segment(data);
    assert(0x04u8 & 0x20 == 0 && 0x24u8 & 0x20 != 0) by (bit_vector);
    if zgfx::is_stored(data) {
        assert(segment.drop_first() =~= data);
    } else {
        let tokens = zgfx::tokens_from(data, 0);
        let stream = zgfx_codes::tokens_bits(tokens);
        assert(segment.drop_first() =~= bits::pack(stream));
        bits::pack_is_lossless(stream);
        assert forall|i: int| 0 <= i < tokens.len() implies has_code(#[trigger] tokens[i]) by {
            matches_stay_within_the_history(data, 0, i);
        }
        tokens_are_read_back(tokens);
        lemma_expand_rebuilds(data, 0);
        assert(data.take(0) =~= Seq::empty());
    }
}

/// A segment is at most one byte longer than its data, and its first byte says
/// whether the rest is the data itself.
pub proof fn segment_is_small(data: Seq<u8>)
    ensures
        0 < zgfx::segment(data).len() <= data.len() + 1,
        zgfx::segment(data)[0] == zgfx::STORED || zgfx::segment(data)[0] == zgfx::COMPRESSED,
        zgfx::segment(data)[0] == zgfx::STORED <==> zgfx::segment(data) == seq![zgfx::STORED]
            + data,
        zgfx::segment(data)[0] == zgfx::COMPRESSED ==> zgfx::segment(data).len() <= data.len(),
{
}

/// A byte that has a short code is written with it, and with a whole byte behind a
/// zero where it has none.
pub proof fn frequent_bytes_are_short(byte: u8, len: nat, prefix: nat)
    ensures
        code_of(len, prefix) == Some(Code::Literal { value_bits: 0, base: byte as nat })
            ==> zgfx_codes::literal_bits(byte) == bits::low_bits(prefix, len),
        (forall|n: nat, p: nat|
            #[trigger] code_of(n, p) != Some(Code::Literal { value_bits: 0, base: byte as nat }))
            ==> zgfx_codes::literal_bits(byte) == seq![false] + bits::low_bits(byte as nat, 8),
{
    lemma_shortcut_code(byte);
}

} // verus!
