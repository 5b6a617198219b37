//! Bit strings: reading numbers from them, and packing them into bytes.
//!
//! All bit strings are written most significant bit first.

use vstd::arithmetic::power2::*;
use vstd::prelude::*;

verus! {

/// The number whose binary digits are `bits`.
pub open spec fn bits_value(bits: Seq<bool>) -> nat
    decreases bits.len(),
{
    if bits.len() == 0 {
        0
    } else {
        2 * bits_value(bits.drop_last()) + (if bits.last() {
            1nat
        } else {
            0nat
        })
    }
}

/// The lowest `count` binary digits of `value`.
pub open spec fn low_bits(value: nat, count: nat) -> Seq<bool>
    decreases count,
{
    if count == 0 {
        Seq::empty()
    } else {
        low_bits(value / 2, (count - 1) as nat).push(value % 2 == 1)
    }
}

/// The bits of a byte string.
pub open spec fn bytes_bits(bytes: Seq<u8>) -> Seq<bool>
    decreases bytes.len(),
{
    if bytes.len() == 0 {
        Seq::empty()
    } else {
        bytes_bits(bytes.drop_last()) + low_bits(bytes.last() as nat, 8)
    }
}

/// How many zero bits fill `len` bits up to a whole number of bytes.
pub open spec fn padding(len: nat) -> nat {
    ((8 - len % 8) % 8) as nat
}

/// `bits` with zero bits appended up to a whole number of bytes.
pub open spec fn padded(bits: Seq<bool>) -> Seq<bool> {
    bits + Seq::new(padding(bits.len()), |i: int| false)
}

/// The packed form of a bit string: its padded bytes, then one byte that holds
/// the number of padding bits.
pub open spec fn pack(bits: Seq<bool>) -> Seq<u8> {
    Seq::new(
        padded(bits).len() / 8,
        |i: int| bits_value(padded(bits).subrange(8 * i, 8 * i + 8)) as u8,
    ).push(padding(bits.len()) as u8)
}

/// The bit string that `packed` holds, if its last byte is a possible number of
/// padding bits.
pub open spec fn unpack(packed: Seq<u8>) -> Option<Seq<bool>> {
    if packed.len() == 0 || packed.last() > 8 * (packed.len() - 1) {
        None
    } else {
        Some(bytes_bits(packed.drop_last()).take(8 * (packed.len() - 1) - packed.last()))
    }
}

pub proof fn lemma_low_bits_len(value: nat, count: nat)
    ensures
        low_bits(value, count).len() == count,
    decreases count,
{
    if count > 0 {
        lemma_low_bits_len(value / 2, (count - 1) as nat);
    }
}

pub proof fn lemma_bytes_bits_len(bytes: Seq<u8>)
    ensures
        bytes_bits(bytes).len() == 8 * bytes.len(),
    decreases bytes.len(),
{
    if bytes.len() > 0 {
        lemma_bytes_bits_len(bytes.drop_last());
        lemma_low_bits_len(bytes.last() as nat, 8);
    }
}

/// Reading back the lowest digits of a number gives its remainder.
pub proof fn lemma_value_of_low_bits(value: nat, count: nat)
    ensures
        bits_value(low_bits(value, count)) == value % pow2(count),
    decreases count,
{
    lemma_pow2_pos(count);
    if count == 0 {
        lemma2_to64();
    } else {
        let rest = (count - 1) as nat;
        lemma_value_of_low_bits(value / 2, rest);
        lemma_low_bits_len(value / 2, rest);
        let s = low_bits(value, count);
        assert(s.drop_last() =~= low_bits(value / 2, rest));
        lemma_pow2_unfold(count);
        lemma_pow2_pos(rest);
        let m = pow2(rest);
        assert(value % (2 * m) == 2 * ((value / 2) % m) + value % 2) by (nonlinear_arith)
            requires
                m > 0,
        {
            let h = value / 2;
            assert(value == 2 * h + value % 2);
            assert(h == m * (h / m) + h % m);
            assert(value == (2 * m) * (h / m) + (2 * (h % m) + value % 2));
            assert(0 <= 2 * (h % m) + value % 2 < 2 * m);
            vstd::arithmetic::div_mod::lemma_fundamental_div_mod_converse_mod(
                value as int,
                (2 * m) as int,
                (h / m) as int,
                (2 * (h % m) + value % 2) as int,
            );
        }
    }
}

/// Writing a bit string's value in as many digits gives the bit string back.
pub proof fn lemma_low_bits_of_value(bits: Seq<bool>)
    ensures
        low_bits(bits_value(bits), bits.len()) == bits,
        bits_value(bits) < pow2(bits.len()),
    decreases bits.len(),
{
    if bits.len() == 0 {
        lemma2_to64();
        assert(bits =~= Seq::empty());
    } else {
        lemma_low_bits_of_value(bits.drop_last());
        lemma_pow2_unfold(bits.len());
        let v = bits_value(bits);
        let head = bits_value(bits.drop_last());
        assert(v / 2 == head);
        assert((v % 2 == 1) == bits.last());
        assert(bits.drop_last().push(bits.last()) =~= bits);
    }
}

/// The first digits of a number hold its quotient.
pub proof fn lemma_value_of_first_bits(value: nat, count: nat, first: nat)
    requires
        first <= count,
        value < pow2(count),
    ensures
        bits_value(low_bits(value, count).take(first as int)) == value / pow2((count - first) as nat),
    decreases count - first,
{
    lemma_low_bits_len(value, count);
    if first == count {
        assert(low_bits(value, count).take(first as int) =~= low_bits(value, count));
        lemma_value_of_low_bits(value, count);
        lemma2_to64();
        vstd::arithmetic::div_mod::lemma_small_mod(value, pow2(count));
        assert(pow2((count - first) as nat) == 1);
        assert(value / 1 == value);
    } else {
        let rest = (count - 1) as nat;
        lemma_low_bits_len(value / 2, rest);
        lemma_pow2_unfold(count);
        lemma_value_of_first_bits(value / 2, rest, first);
        assert(low_bits(value, count).take(first as int) =~= low_bits(value / 2, rest).take(
            first as int,
        ));
        let d = pow2((rest - first) as nat);
        lemma_pow2_pos((rest - first) as nat);
        lemma_pow2_unfold((count - first) as nat);
        assert((rest - first) as nat == (((count - first) as nat) - 1) as nat);
        assert(pow2((count - first) as nat) == 2 * d);
        vstd::arithmetic::div_mod::lemma_div_denominator(value as int, 2, d as int);
        assert(value / (2 * d) == (value / 2) / d);
    }
}

/// Each byte of a byte string stands at its place among the bits.
pub proof fn lemma_bytes_bits_index(bytes: Seq<u8>, i: int)
    requires
        0 <= i < bytes.len(),
    ensures
        bytes_bits(bytes).subrange(8 * i, 8 * i + 8) == low_bits(bytes[i] as nat, 8),
    decreases bytes.len(),
{
    lemma_bytes_bits_len(bytes);
    lemma_bytes_bits_len(bytes.drop_last());
    lemma_low_bits_len(bytes.last() as nat, 8);
    if i < bytes.len() - 1 {
        lemma_bytes_bits_index(bytes.drop_last(), i);
        assert(bytes_bits(bytes).subrange(8 * i, 8 * i + 8) =~= bytes_bits(
            bytes.drop_last(),
        ).subrange(8 * i, 8 * i + 8));
    } else {
        assert(bytes_bits(bytes).subrange(8 * i, 8 * i + 8) =~= low_bits(bytes.last() as nat, 8));
    }
}

/// A byte string is determined by its bits.
pub proof fn lemma_bytes_of_bits(bytes: Seq<u8>, bits: Seq<bool>)
    requires
        bytes_bits(bytes) == bits,
    ensures
        bits.len() == 8 * bytes.len(),
        bytes == Seq::new(
            bits.len() / 8,
            |i: int| bits_value(bits.subrange(8 * i, 8 * i + 8)) as u8,
        ),
{
    lemma_bytes_bits_len(bytes);
    let rebuilt = Seq::new(
        bits.len() / 8,
        |i: int| bits_value(bits.subrange(8 * i, 8 * i + 8)) as u8,
    );
    assert forall|i: int| 0 <= i < bytes.len() implies bytes[i] == rebuilt[i] by {
        lemma_bytes_bits_index(bytes, i);
        lemma_value_of_low_bits(bytes[i] as nat, 8);
        lemma2_to64();
    }
    assert(bytes =~= rebuilt);
}

/// The bytes read off a bit string of whole bytes have that bit string as their bits.
pub proof fn lemma_bits_of_bytes(bits: Seq<bool>, n: nat)
    requires
        bits.len() == 8 * n,
    ensures
        bytes_bits(
            Seq::new(n, |i: int| bits_value(bits.subrange(8 * i, 8 * i + 8)) as u8),
        ) == bits,
    decreases n,
{
    let bytes = Seq::new(n, |i: int| bits_value(bits.subrange(8 * i, 8 * i + 8)) as u8);
    if n == 0 {
        assert(bits =~= Seq::empty());
    } else {
        let m = (n - 1) as nat;
        let front = bits.take(8 * m as int);
        lemma_bits_of_bytes(front, m);
        assert(bytes.drop_last() =~= Seq::new(
            m,
            |i: int| bits_value(front.subrange(8 * i, 8 * i + 8)) as u8,
        )) by {
            assert forall|i: int| 0 <= i < m implies front.subrange(8 * i, 8 * i + 8)
                == #[trigger] bits.subrange(8 * i, 8 * i + 8) by {
                assert(front.subrange(8 * i, 8 * i + 8) =~= bits.subrange(8 * i, 8 * i + 8));
            }
        }
        let back = bits.subrange(8 * m as int, 8 * m as int + 8);
        lemma_low_bits_of_value(back);
        lemma2_to64();
        assert(bytes_bits(bytes) =~= front + back);
        assert(front + back =~= bits);
    }
}

/// What `pack` writes, `unpack` reads back.
pub proof fn pack_is_lossless(bits: Seq<bool>)
    ensures
        unpack(pack(bits)) == Some(bits),
{
    let p = padded(bits);
    let n = p.len() / 8;
    assert(p.len() == 8 * n);
    lemma_bits_of_bytes(p, n);
    assert(pack(bits).drop_last() =~= Seq::new(
        n,
        |i: int| bits_value(p.subrange(8 * i, 8 * i + 8)) as u8,
    ));
    assert(p.take(bits.len() as int) =~= bits);
}

/// The packed form of a bit string is as short as it can be: its bits in whole
/// bytes, the first bit of each the highest, and one byte more, with the number of
/// bits that fill up the last.
pub proof fn packing_is_tight(bits: Seq<bool>, i: int)
    ensures
        pack(bits).len() == (bits.len() + 7) / 8 + 1,
        pack(bits).last() < 8,
        (bits.len() + pack(bits).last()) % 8 == 0,
        0 <= i < bits.len() / 8 ==> (pack(bits)[i] >= 128 <==> bits[8 * i]),
{
    if 0 <= i < bits.len() / 8 {
        let eight = padded(bits).subrange(8 * i, 8 * i + 8);
        lemma_low_bits_of_value(eight);
        lemma2_to64();
        let value = bits_value(eight);
        lemma_value_of_first_bits(value, 8, 1);
        assert(eight.take(1) =~= seq![bits[8 * i]]);
        reveal_with_fuel(bits_value, 2);
        assert(seq![bits[8 * i]].drop_last() =~= Seq::empty());
        assert(value / 128 == bits_value(seq![bits[8 * i]]));
        assert(pack(bits)[i] == value as u8);
    }
}

} // verus!
