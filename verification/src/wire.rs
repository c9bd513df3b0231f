//! Integers in network byte order: the most significant byte comes first.

use vstd::prelude::*;
use crate::error::DnsError;

verus! {

/// The 16-bit number whose big-endian bytes stand at `i` and `i + 1`.
pub open spec fn u16_at(buf: Seq<u8>, i: int) -> int {
    buf[i] * 256 + buf[i + 1]
}

/// The 32-bit number whose big-endian bytes stand at `i` to `i + 3`.
pub open spec fn u32_at(buf: Seq<u8>, i: int) -> int {
    ((buf[i] * 256 + buf[i + 1]) * 256 + buf[i + 2]) * 256 + buf[i + 3]
}

/// The two big-endian bytes of a 16-bit number.
pub open spec fn be16(v: u16) -> Seq<u8> {
    seq![(v / 256) as u8, (v % 256) as u8]
}

/// Reads the big-endian 16-bit number at `pos`; fails where the buffer ends before it does.
pub fn read_u16(buf: &[u8], pos: usize) -> (r: Result<u16, DnsError>)
    ensures
        r == if pos + 2 <= buf@.len() {
            Ok::<u16, DnsError>(u16_at(buf@, pos as int) as u16)
        } else {
            Err::<u16, DnsError>(DnsError::UnexpectedEof)
        },
        r is Ok ==> r->Ok_0 == u16_at(buf@, pos as int),
{
    if buf.len() < 2 || pos > buf.len() - 2 {
        return Err(DnsError::UnexpectedEof);
    }
    let hi: u16 = buf[pos] as u16;
    let lo: u16 = buf[pos + 1] as u16;
    Ok(hi * 256 + lo)
}

/// Reads the big-endian 32-bit number at `pos`; fails where the buffer ends before it does.
pub fn read_u32(buf: &[u8], pos: usize) -> (r: Result<u32, DnsError>)
    ensures
        r == if pos + 4 <= buf@.len() {
            Ok::<u32, DnsError>(u32_at(buf@, pos as int) as u32)
        } else {
            Err::<u32, DnsError>(DnsError::UnexpectedEof)
        },
        r is Ok ==> r->Ok_0 == u32_at(buf@, pos as int),
{
    if buf.len() < 4 || pos > buf.len() - 4 {
        return Err(DnsError::UnexpectedEof);
    }
    let b0: u32 = buf[pos] as u32;
    let b1: u32 = buf[pos + 1] as u32;
    let b2: u32 = buf[pos + 2] as u32;
    let b3: u32 = buf[pos + 3] as u32;
    Ok(((b0 * 256 + b1) * 256 + b2) * 256 + b3)
}

/// Appends the two big-endian bytes of `v`.
pub fn push_u16(out: &mut Vec<u8>, v: u16)
    ensures
        final(out)@ == old(out)@ + be16(v),
{
    let ghost before = out@;
    out.push((v / 256) as u8);
    out.push((v % 256) as u8);
    assert(out@ =~= before + be16(v));
}

/// The two bytes written for a number read back as that number.
pub proof fn lemma_be16_round_trip(v: u16)
    ensures
        u16_at(be16(v), 0) == v,
{
}

} // verus!
