//! Bit vectors of the `bitvec` crate, most significant bit first, as far as
//! the codes of record types and classes are written into them.

use vstd::prelude::*;
use bitvec::order::Msb0;
use bitvec::vec::BitVec;
use bitvec::view::BitView;

verus! {

/// A growable run of bits, kept in a bit vector over bytes in which the
/// most significant bit of each byte comes first.
#[verifier::external_body]
pub struct BitBuffer {
    bits: BitVec<u8, Msb0>,
}

/// The bits that a buffer holds, first to last.
pub uninterp spec fn bits_of(bv: BitBuffer) -> Seq<bool>;

/// A number of bits that a buffer can hold on every machine.
pub const MAX_BITS: usize = 0x1FFF_FFFF;

/// 2 to the power `n`.
pub open spec fn two_to(n: nat) -> int
    decreases n,
{
    if n == 0 {
        1
    } else {
        2 * two_to((n - 1) as nat)
    }
}

/// The sixteen bits of a number, the most significant first.
pub open spec fn u16_bits(v: u16) -> Seq<bool> {
    Seq::new(16, |i: int| (v as int / two_to((15 - i) as nat)) % 2 == 1)
}

/// `BitVec::new` of bitvec: a vector that holds no bit.
#[verifier::external_body]
fn empty_bits() -> (bv: BitBuffer)
    ensures
        bits_of(bv) == Seq::<bool>::empty(),
{
    BitBuffer { bits: BitVec::new() }
}

/// `BitVec::len` of bitvec: the number of bits held.
#[verifier::external_body]
fn bit_len(bv: &BitBuffer) -> (n: usize)
    ensures
        n == bits_of(*bv).len(),
{
    bv.bits.len()
}

/// Indexing a `BitVec` of bitvec by a place below its length: the bit at that place.
#[verifier::external_body]
fn bit_at(bv: &BitBuffer, i: usize) -> (b: bool)
    requires
        i < bits_of(*bv).len(),
    ensures
        b == bits_of(*bv)[i as int],
{
    bv.bits[i]
}

/// `BitVec::extend_from_bitslice` of bitvec, handed the `Msb0` view of one
/// 16-bit number (`BitView::view_bits`): the vector grows by the number's
/// sixteen bits, the most significant first, and keeps what it held. The
/// call panics where the vector would outgrow what a bit vector can hold, so
/// that is left out.
#[verifier::external_body]
fn extend_with_u16(bv: &mut BitBuffer, v: u16)
    requires
        bits_of(*old(bv)).len() + 16 <= MAX_BITS,
    ensures
        bits_of(*final(bv)) == bits_of(*old(bv)) + u16_bits(v),
{
    bv.bits.extend_from_bitslice(v.view_bits::<Msb0>())
}

impl BitBuffer {
    /// A buffer that holds no bit.
    pub fn new() -> (bv: BitBuffer)
        ensures
            bits_of(bv) == Seq::<bool>::empty(),
    {
        empty_bits()
    }

    /// The number of bits held.
    pub fn len(&self) -> (n: usize)
        ensures
            n == bits_of(*self).len(),
    {
        bit_len(self)
    }

    /// Appends the sixteen bits of `v`, the most significant first; where the
    /// buffer has no room for them it is left as it is and `false` is returned.
    pub fn push_u16(&mut self, v: u16) -> (done: bool)
        ensures
            done == (bits_of(*old(self)).len() + 16 <= MAX_BITS),
            done ==> bits_of(*final(self)) == bits_of(*old(self)) + u16_bits(v),
            !done ==> bits_of(*final(self)) == bits_of(*old(self)),
    {
        if bit_len(self) > MAX_BITS - 16 {
            false
        } else {
            extend_with_u16(self, v);
            true
        }
    }

    /// The bits held, first to last.
    pub fn to_bits(&self) -> (out: Vec<bool>)
        ensures
            out@ == bits_of(*self),
    {
        let n = bit_len(self);
        let mut out: Vec<bool> = Vec::new();
        let mut i: usize = 0;
        while i < n
            invariant
                n == bits_of(*self).len(),
                i <= n,
                out@ == bits_of(*self).take(i as int),
            decreases n - i,
        {
            out.push(bit_at(self, i));
            i += 1;
            assert(out@ =~= bits_of(*self).take(i as int));
        }
        assert(bits_of(*self).take(n as int) =~= bits_of(*self));
        out
    }
}

} // verus!
