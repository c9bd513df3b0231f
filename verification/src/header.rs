//! The fixed twelve-byte header at the start of every message.

use vstd::prelude::*;
use crate::error::DnsError;
use crate::wire::{be16, push_u16, read_u16, u16_at};

verus! {

/// The number of bytes a header takes.
pub const HEADER_LEN: usize = 12;

/// What the responder says of the query's fate.
#[derive(Debug, Clone, Copy, PartialEq, Eq, Structural)]
pub enum ResponseCode {
    NoError,
    FormatError,
    ServerFailure,
    NameError,
    NotImplemented,
    Refused,
    /// A code without a name of its own.
    Other(u8),
}

impl ResponseCode {
    /// The four-bit number written for a response code.
    pub open spec fn code(self) -> int {
        match self {
            ResponseCode::NoError => 0,
            ResponseCode::FormatError => 1,
            ResponseCode::ServerFailure => 2,
            ResponseCode::NameError => 3,
            ResponseCode::NotImplemented => 4,
            ResponseCode::Refused => 5,
            ResponseCode::Other(c) => c as int % 16,
        }
    }

    /// The response code that a four-bit number stands for.
    pub open spec fn of_code(code: int) -> ResponseCode {
        if code == 0 {
            ResponseCode::NoError
        } else if code == 1 {
            ResponseCode::FormatError
        } else if code == 2 {
            ResponseCode::ServerFailure
        } else if code == 3 {
            ResponseCode::NameError
        } else if code == 4 {
            ResponseCode::NotImplemented
        } else if code == 5 {
            ResponseCode::Refused
        } else {
            ResponseCode::Other(code as u8)
        }
    }

    /// Whether the value is the one that decoding gives for its number:
    /// `Other` holds only numbers from 6 to 15.
    pub open spec fn well_formed(self) -> bool {
        match self {
            ResponseCode::Other(c) => 6 <= c < 16,
            _ => true,
        }
    }

    /// The four-bit number written for this response code.
    pub fn to_code(&self) -> (c: u8)
        ensures
            c == self.code(),
            c < 16,
    {
        match self {
            ResponseCode::NoError => 0,
            ResponseCode::FormatError => 1,
            ResponseCode::ServerFailure => 2,
            ResponseCode::NameError => 3,
            ResponseCode::NotImplemented => 4,
            ResponseCode::Refused => 5,
            ResponseCode::Other(c) => *c % 16,
        }
    }

    /// The response code that a number stands for: the first six have names.
    pub fn from_code(code: u8) -> (r: ResponseCode)
        ensures
            r == ResponseCode::of_code(code as int),
            code < 16 ==> r.well_formed(),
    {
        match code {
            0 => ResponseCode::NoError,
            1 => ResponseCode::FormatError,
            2 => ResponseCode::ServerFailure,
            3 => ResponseCode::NameError,
            4 => ResponseCode::NotImplemented,
            5 => ResponseCode::Refused,
            other => ResponseCode::Other(other),
        }
    }
}

/// The header of a message: the transaction id, the flags and the number of
/// entries in each of the four sections.
#[derive(Debug, Clone, Copy, PartialEq, Eq, Structural)]
pub struct Header {
    pub id: u16,
    /// False for a query, true for a response.
    pub qr: bool,
    /// Four bits; 0 is a standard query.
    pub opcode: u8,
    pub aa: bool,
    pub tc: bool,
    pub rd: bool,
    pub ra: bool,
    /// The three reserved bits as they were read; always written as zero.
    pub z: u8,
    pub resp_code: ResponseCode,
    pub qdcount: u16,
    pub ancount: u16,
    pub nscount: u16,
    pub arcount: u16,
}

/// 1 for a set flag, 0 for a clear one.
pub open spec fn bit(b: bool) -> int {
    if b {
        1
    } else {
        0
    }
}

impl Header {
    /// Whether every field fits its width on the wire, with the reserved bits zero.
    pub open spec fn well_formed(self) -> bool {
        self.opcode < 16 && self.z == 0 && self.resp_code.well_formed()
    }

    /// The flags word: from the top bit down, QR, four bits of opcode, AA,
    /// TC, RD, RA, three zero bits, four bits of response code.
    pub open spec fn flags(self) -> int {
        bit(self.qr) * 32768 + (self.opcode as int % 16) * 2048 + bit(self.aa) * 1024 + bit(
            self.tc,
        ) * 512 + bit(self.rd) * 256 + bit(self.ra) * 128 + self.resp_code.code()
    }

    /// The twelve bytes of the header: id, flags and the four counts, each big-endian.
    pub open spec fn wire(self) -> Seq<u8> {
        be16(self.id) + be16(self.flags() as u16) + be16(self.qdcount) + be16(self.ancount) + be16(
            self.nscount,
        ) + be16(self.arcount)
    }

    /// The header that the first twelve bytes of `buf` hold.
    pub open spec fn of_wire(buf: Seq<u8>) -> Header {
        let flags = u16_at(buf, 2);
        Header {
            id: u16_at(buf, 0) as u16,
            qr: flags / 32768 == 1,
            opcode: ((flags / 2048) % 16) as u8,
            aa: (flags / 1024) % 2 == 1,
            tc: (flags / 512) % 2 == 1,
            rd: (flags / 256) % 2 == 1,
            ra: (flags / 128) % 2 == 1,
            z: ((flags / 16) % 8) as u8,
            resp_code: ResponseCode::of_code(flags % 16),
            qdcount: u16_at(buf, 4) as u16,
            ancount: u16_at(buf, 6) as u16,
            nscount: u16_at(buf, 8) as u16,
            arcount: u16_at(buf, 10) as u16,
        }
    }

    /// The header of a standard query with one question that asks for recursion.
    pub open spec fn query_spec(id: u16) -> Header {
        Header {
            id,
            qr: false,
            opcode: 0,
            aa: false,
            tc: false,
            rd: true,
            ra: false,
            z: 0,
            resp_code: ResponseCode::NoError,
            qdcount: 1,
            ancount: 0,
            nscount: 0,
            arcount: 0,
        }
    }

    /// The header of a standard query with one question that asks for recursion.
    pub fn query(id: u16) -> (h: Header)
        ensures
            h == Header::query_spec(id),
            h.well_formed(),
    {
        Header {
            id,
            qr: false,
            opcode: 0,
            aa: false,
            tc: false,
            rd: true,
            ra: false,
            z: 0,
            resp_code: ResponseCode::NoError,
            qdcount: 1,
            ancount: 0,
            nscount: 0,
            arcount: 0,
        }
    }

    /// Writes the header as twelve bytes. Opcode and response code are cut to
    /// their four bits, and the reserved bits are written as zero.
    pub fn encode(&self) -> (out: Vec<u8>)
        ensures
            out@ == self.wire(),
            out@.len() == HEADER_LEN,
    {
        let qr: u16 = if self.qr { 32768 } else { 0 };
        let aa: u16 = if self.aa { 1024 } else { 0 };
        let tc: u16 = if self.tc { 512 } else { 0 };
        let rd: u16 = if self.rd { 256 } else { 0 };
        let ra: u16 = if self.ra { 128 } else { 0 };
        let opcode: u16 = (self.opcode % 16) as u16;
        let rcode: u16 = self.resp_code.to_code() as u16;
        let flags: u16 = qr + opcode * 2048 + aa + tc + rd + ra + rcode;
        let mut out: Vec<u8> = Vec::new();
        push_u16(&mut out, self.id);
        push_u16(&mut out, flags);
        push_u16(&mut out, self.qdcount);
        push_u16(&mut out, self.ancount);
        push_u16(&mut out, self.nscount);
        push_u16(&mut out, self.arcount);
        assert(out@ =~= self.wire());
        out
    }

    /// Reads the header from the first twelve bytes of `buf`; fails exactly
    /// where `buf` is shorter than that.
    pub fn decode(buf: &[u8]) -> (r: Result<Header, DnsError>)
        ensures
            r == if buf@.len() >= HEADER_LEN {
                Ok::<Header, DnsError>(Header::of_wire(buf@))
            } else {
                Err::<Header, DnsError>(DnsError::UnexpectedEof)
            },
            r is Ok ==> r->Ok_0.opcode < 16 && r->Ok_0.resp_code.well_formed(),
    {
        if buf.len() < HEADER_LEN {
            return Err(DnsError::UnexpectedEof);
        }
        let id = read_u16(buf, 0)?;
        let flags = read_u16(buf, 2)?;
        let qdcount = read_u16(buf, 4)?;
        let ancount = read_u16(buf, 6)?;
        let nscount = read_u16(buf, 8)?;
        let arcount = read_u16(buf, 10)?;
        Ok(
            Header {
                id,
                qr: flags / 32768 == 1,
                opcode: ((flags / 2048) % 16) as u8,
                aa: (flags / 1024) % 2 == 1,
                tc: (flags / 512) % 2 == 1,
                rd: (flags / 256) % 2 == 1,
                ra: (flags / 128) % 2 == 1,
                z: ((flags / 16) % 8) as u8,
                resp_code: ResponseCode::from_code((flags % 16) as u8),
                qdcount,
                ancount,
                nscount,
                arcount,
            },
        )
    }
}

proof fn lemma_flag_fields(q: int, op: int, a: int, t: int, r: int, ra: int, rc: int)
    requires
        0 <= q <= 1,
        0 <= op < 16,
        0 <= a <= 1,
        0 <= t <= 1,
        0 <= r <= 1,
        0 <= ra <= 1,
        0 <= rc < 16,
    ensures
        ({
            let f = q * 32768 + op * 2048 + a * 1024 + t * 512 + r * 256 + ra * 128 + rc;
            &&& 0 <= f < 65536
            &&& f / 32768 == q
            &&& (f / 2048) % 16 == op
            &&& (f / 1024) % 2 == a
            &&& (f / 512) % 2 == t
            &&& (f / 256) % 2 == r
            &&& (f / 128) % 2 == ra
            &&& (f / 16) % 8 == 0
            &&& f % 16 == rc
        }),
{
}

proof fn lemma_wire_fields(h: Header)
    ensures
        h.wire().len() == 12,
        u16_at(h.wire(), 0) == h.id,
        u16_at(h.wire(), 2) == h.flags() as u16,
        u16_at(h.wire(), 4) == h.qdcount,
        u16_at(h.wire(), 6) == h.ancount,
        u16_at(h.wire(), 8) == h.nscount,
        u16_at(h.wire(), 10) == h.arcount,
{
    let w = h.wire();
    let f = h.flags() as u16;
    assert(w.subrange(0, 2) =~= be16(h.id));
    assert(w.subrange(2, 4) =~= be16(f));
    assert(w.subrange(4, 6) =~= be16(h.qdcount));
    assert(w.subrange(6, 8) =~= be16(h.ancount));
    assert(w.subrange(8, 10) =~= be16(h.nscount));
    assert(w.subrange(10, 12) =~= be16(h.arcount));
    lemma_be16_at(w, 0, h.id);
    lemma_be16_at(w, 2, f);
    lemma_be16_at(w, 4, h.qdcount);
    lemma_be16_at(w, 6, h.ancount);
    lemma_be16_at(w, 8, h.nscount);
    lemma_be16_at(w, 10, h.arcount);
}

proof fn lemma_be16_at(w: Seq<u8>, i: int, v: u16)
    requires
        0 <= i,
        i + 2 <= w.len(),
        w.subrange(i, i + 2) == be16(v),
    ensures
        u16_at(w, i) == v,
{
    assert(w[i] == w.subrange(i, i + 2)[0]);
    assert(w[i + 1] == w.subrange(i, i + 2)[1]);
}

proof fn lemma_flags_read_back(h: Header)
    requires
        h.well_formed(),
    ensures
        0 <= h.flags() < 65536,
        (h.flags() / 32768 == 1) == h.qr,
        (h.flags() / 2048) % 16 == h.opcode,
        ((h.flags() / 1024) % 2 == 1) == h.aa,
        ((h.flags() / 512) % 2 == 1) == h.tc,
        ((h.flags() / 256) % 2 == 1) == h.rd,
        ((h.flags() / 128) % 2 == 1) == h.ra,
        (h.flags() / 16) % 8 == 0,
        ResponseCode::of_code(h.flags() % 16) == h.resp_code,
{
    lemma_flag_fields(
        bit(h.qr),
        h.opcode as int,
        bit(h.aa),
        bit(h.tc),
        bit(h.rd),
        bit(h.ra),
        h.resp_code.code(),
    );
}

proof fn lemma_fields_give_header(w: Seq<u8>, h: Header)
    requires
        h.well_formed(),
        u16_at(w, 0) == h.id,
        u16_at(w, 2) == h.flags(),
        u16_at(w, 4) == h.qdcount,
        u16_at(w, 6) == h.ancount,
        u16_at(w, 8) == h.nscount,
        u16_at(w, 10) == h.arcount,
    ensures
        Header::of_wire(w) == h,
{
    lemma_flags_read_back(h);
}

/// A well-formed header is read back from any buffer that begins with its twelve bytes.
pub proof fn lemma_header_round_trip_within(h: Header, buf: Seq<u8>)
    requires
        h.well_formed(),
        buf.len() >= HEADER_LEN,
        buf.subrange(0, HEADER_LEN as int) == h.wire(),
    ensures
        Header::of_wire(buf) == h,
{
    lemma_wire_fields(h);
    lemma_flags_read_back(h);
    let w = h.wire();
    assert forall|k: int| 0 <= k < 12 implies buf[k] == #[trigger] w[k] by {
        assert(buf.subrange(0, HEADER_LEN as int)[k] == buf[k]);
    }
    assert(u16_at(buf, 0) == u16_at(w, 0));
    assert(u16_at(buf, 2) == u16_at(w, 2));
    assert(u16_at(buf, 4) == u16_at(w, 4));
    assert(u16_at(buf, 6) == u16_at(w, 6));
    assert(u16_at(buf, 8) == u16_at(w, 8));
    assert(u16_at(buf, 10) == u16_at(w, 10));
    lemma_fields_give_header(buf, h);
}

/// A well-formed header read back from its own twelve bytes is itself.
pub proof fn lemma_header_round_trip(h: Header)
    requires
        h.well_formed(),
    ensures
        Header::of_wire(h.wire()) == h,
{
    lemma_wire_fields(h);
    assert(h.wire().subrange(0, HEADER_LEN as int) =~= h.wire());
    lemma_header_round_trip_within(h, h.wire());
}

/// The bytes of a header are twelve.
pub proof fn lemma_header_wire_len(h: Header)
    ensures
        h.wire().len() == HEADER_LEN,
{
    lemma_wire_fields(h);
}

} // verus!
