//! A writer of bit strings into bytes.

use vstd::arithmetic::power2::*;
use vstd::prelude::*;

use crate::bits;

verus! {

/// Collects bits, most significant first, into bytes.
pub struct BitWriter {
    bytes: Vec<u8>,
    current: u32,
    bits_in_current: u8,
}

impl View for BitWriter {
    type V = Seq<bool>;

    /// The bits written so far.
    closed spec fn view(&self) -> Seq<bool> {
        bits::bytes_bits(self.bytes@) + bits::low_bits(self.current as nat, self.bits_in_current as nat)
    }
}

impl BitWriter {
    /// The unfinished byte holds fewer than eight bits, and nothing above them.
    pub closed spec fn wf(self) -> bool {
        self.bits_in_current < 8 && self.current < pow2(self.bits_in_current as nat)
    }

    /// A writer with nothing written and room for `capacity` bytes.
    pub fn new(capacity: usize) -> (w: Self)
        requires
            capacity <= isize::MAX,
        ensures
            w.wf(),
            w@ == Seq::<bool>::empty(),
    {
        proof {
            lemma2_to64();
        }
        let w = BitWriter { bytes: Vec::with_capacity(capacity), current: 0, bits_in_current: 0 };
        assert(w@ =~= Seq::<bool>::empty());
        w
    }

    /// Appends the lowest `count` bits of `value`.
    pub fn write_bits(&mut self, value: u32, count: u8)
        requires
            old(self).wf(),
            count <= 24,
        ensures
            final(self).wf(),
            final(self)@ == old(self)@ + bits::low_bits(value as nat, count as nat),
    {
        let ghost before = self@;
        let mut left: u8 = count;
        assert(value >> (count as u32) == value >> (left as u32));
        assert(bits::low_bits((value >> (count as u32)) as nat, 0) =~= Seq::<bool>::empty());
        assert(before + Seq::<bool>::empty() =~= before);
        while left > 0
            invariant
                left <= count <= 24,
                self.wf(),
                self@ == before + bits::low_bits((value >> (left as u32)) as nat, (count - left) as nat),
            decreases left,
        {
            let ghost prior = *self;
            let ghost shorter = value >> (left as u32);
            left -= 1;
            let bit: u32 = (value >> (left as u32)) & 1;
            let ghost longer = value >> (left as u32);
            let l = left as u32;
            assert(longer / 2 == shorter && longer % 2 == bit) by {
                assert(l < 24 ==> (value >> l) / 2 == value >> ((l + 1) as u32) && (value >> l) % 2
                    == (value >> l) & 1) by (bit_vector);
            }
            proof {
                lemma2_to64();
                lemma_pow2_strictly_increases(prior.bits_in_current as nat, 8);
            }
            let c = self.current;
            assert(c < 256 && bit <= 1 ==> (c << 1) | bit == 2 * c + bit) by (bit_vector);
            self.current = (self.current << 1) | bit;
            self.bits_in_current += 1;
            proof {
                lemma_pow2_unfold(self.bits_in_current as nat);
                assert(self.current / 2 == prior.current);
                assert((self.current % 2 == 1) == (bit == 1));
                assert(bits::low_bits(self.current as nat, self.bits_in_current as nat) =~= bits::low_bits(
                    prior.current as nat,
                    prior.bits_in_current as nat,
                ).push(bit == 1));
                assert(bits::low_bits(longer as nat, (count - left) as nat) =~= bits::low_bits(
                    shorter as nat,
                    (count - left - 1) as nat,
                ).push(bit == 1));
                assert(bits::bytes_bits(self.bytes@) + bits::low_bits(
                    self.current as nat,
                    self.bits_in_current as nat,
                ) =~= prior@.push(bit == 1));
                assert(prior@.push(bit == 1) =~= before + bits::low_bits(longer as nat, (count - left) as nat));
            }
            if self.bits_in_current == 8 {
                let ghost full = self.current;
                self.bytes.push(self.current as u8);
                proof {
                    assert(self.bytes@.drop_last() =~= prior.bytes@);
                    assert(bits::bytes_bits(self.bytes@) == bits::bytes_bits(prior.bytes@) + bits::low_bits(
                        full as nat,
                        8,
                    ));
                }
                self.current = 0;
                self.bits_in_current = 0;
                assert(bits::low_bits(0, 0) =~= Seq::<bool>::empty());
                assert(self@ =~= bits::bytes_bits(self.bytes@));
            }
        }
        assert(value >> 0u32 == value) by (bit_vector);
    }

    /// The written bits in packed form: padded with zeros to whole bytes, then
    /// the number of padding bits.
    pub fn finish(self) -> (bytes: Vec<u8>)
        requires
            self.wf(),
        ensures
            bytes@ == bits::pack(self@),
    {
        let ghost written = self@;
        let mut this = self;
        proof {
            lemma2_to64();
            bits::lemma_bytes_bits_len(this.bytes@);
            bits::lemma_low_bits_len(this.current as nat, this.bits_in_current as nat);
        }
        let pad: u8 = if this.bits_in_current > 0 {
            let pad: u8 = 8 - this.bits_in_current;
            let ghost whole = this.bytes@;
            let ghost c = this.current;
            let n = this.bits_in_current;
            this.current = this.current << pad;
            proof {
                lemma_pow2_strictly_increases(n as nat, 8);
                lemma_padded_low_bits(c, n, pad);
            }
            this.bytes.push(this.current as u8);
            assert(this.bytes@.drop_last() =~= whole);
            assert(bits::bytes_bits(this.bytes@) =~= bits::padded(written));
            pad
        } else {
            assert(bits::padded(written) =~= written);
            assert(bits::bytes_bits(this.bytes@) =~= bits::padded(written));
            0
        };
        proof {
            bits::lemma_bytes_of_bits(this.bytes@, bits::padded(written));
        }
        this.bytes.push(pad);
        assert(this.bytes@ =~= bits::pack(written));
        this.bytes
    }
}

/// Shifting a number left appends zero digits.
proof fn lemma_padded_low_bits(value: u32, count: u8, pad: u8)
    requires
        count + pad == 8,
        value < pow2(count as nat),
    ensures
        (value << pad) < 256,
        bits::low_bits((value << pad) as nat, 8) == bits::low_bits(value as nat, count as nat) + Seq::new(
            pad as nat,
            |i: int| false,
        ),
    decreases pad,
{
    lemma2_to64();
    if pad == 0 {
        assert(value << 0u8 == value) by (bit_vector);
        assert(bits::low_bits(value as nat, 8) =~= bits::low_bits(value as nat, 8) + Seq::new(
            0,
            |i: int| false,
        ));
    } else {
        lemma_pow2_unfold((count + 1) as nat);
        lemma_pow2_strictly_increases(count as nat, 8);
        let twice = (2 * value) as u32;
        lemma_padded_low_bits(twice, (count + 1) as u8, (pad - 1) as u8);
        assert(value < 256 && 0 < pad && pad <= 8 ==> ((2 * value) as u32) << ((pad - 1) as u8)
            == value << pad) by (bit_vector);
        assert(bits::low_bits(twice as nat, (count + 1) as nat) =~= bits::low_bits(
            value as nat,
            count as nat,
        ).push(false));
        assert(bits::low_bits(value as nat, count as nat).push(false) + Seq::new(
            (pad - 1) as nat,
            |i: int| false,
        ) =~= bits::low_bits(value as nat, count as nat) + Seq::new(pad as nat, |i: int| false));
    }
}

} // verus!
