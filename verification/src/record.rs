//! Resource records and the payloads that each record type carries.

use vstd::prelude::*;
use vstd::slice::{slice_subrange, slice_to_vec};
use crate::dns_types::{Class, RecordType};
use crate::error::DnsError;
use crate::name::{bytes_text, decode_name, decode_name_spec, text_of_bytes};
use crate::wire::{read_u16, read_u32, u16_at, u32_at};

verus! {

/// The payload of a start-of-authority record.
#[derive(Debug, Clone, PartialEq, Eq)]
pub struct SoaData {
    /// The name server that is the primary source of data for the zone.
    pub mname: String,
    /// The mailbox of the person responsible for the zone.
    pub rname: String,
    /// The version number of the zone; it wraps.
    pub serial: u32,
    /// The seconds before the zone should be refreshed.
    pub refresh: u32,
    /// The seconds before a failed refresh should be tried again.
    pub retry: u32,
    /// The seconds after which the zone is no longer authoritative.
    pub expire: u32,
}

/// What a start-of-authority payload holds, as mathematical values.
pub struct SoaDataView {
    pub mname: Seq<char>,
    pub rname: Seq<char>,
    pub serial: u32,
    pub refresh: u32,
    pub retry: u32,
    pub expire: u32,
}

impl View for SoaData {
    type V = SoaDataView;

    open spec fn view(&self) -> SoaDataView {
        SoaDataView {
            mname: self.mname@,
            rname: self.rname@,
            serial: self.serial,
            refresh: self.refresh,
            retry: self.retry,
            expire: self.expire,
        }
    }
}

/// The payload of a record, by record type; `Raw` keeps the bytes of a type
/// that has no variant of its own.
#[derive(Debug, Clone, PartialEq, Eq)]
pub enum RecordData {
    /// An IPv4 address, as its four bytes.
    A([u8; 4]),
    /// An IPv6 address, as its sixteen bytes.
    Aaaa([u8; 16]),
    Cname(String),
    Ns(String),
    Ptr(String),
    Mx { preference: u16, exchange: String },
    Srv { priority: u16, weight: u16, port: u16, target: String },
    Txt(String),
    Soa(SoaData),
    Raw(Vec<u8>),
}

/// What a payload holds, as mathematical values.
pub enum RecordDataView {
    A(Seq<u8>),
    Aaaa(Seq<u8>),
    Cname(Seq<char>),
    Ns(Seq<char>),
    Ptr(Seq<char>),
    Mx { preference: u16, exchange: Seq<char> },
    Srv { priority: u16, weight: u16, port: u16, target: Seq<char> },
    Txt(Seq<char>),
    Soa(SoaDataView),
    Raw(Seq<u8>),
}

impl RecordDataView {
    /// The record type of a payload; a raw payload counts as `All`.
    pub open spec fn record_type(self) -> RecordType {
        match self {
            RecordDataView::A(_) => RecordType::A,
            RecordDataView::Aaaa(_) => RecordType::Aaaa,
            RecordDataView::Cname(_) => RecordType::Cname,
            RecordDataView::Ns(_) => RecordType::Ns,
            RecordDataView::Ptr(_) => RecordType::Ptr,
            RecordDataView::Mx { .. } => RecordType::Mx,
            RecordDataView::Srv { .. } => RecordType::Srv,
            RecordDataView::Txt(_) => RecordType::Txt,
            RecordDataView::Soa(_) => RecordType::Soa,
            RecordDataView::Raw(_) => RecordType::All,
        }
    }
}

impl View for RecordData {
    type V = RecordDataView;

    open spec fn view(&self) -> RecordDataView {
        match *self {
            RecordData::A(a) => RecordDataView::A(a@),
            RecordData::Aaaa(a) => RecordDataView::Aaaa(a@),
            RecordData::Cname(n) => RecordDataView::Cname(n@),
            RecordData::Ns(n) => RecordDataView::Ns(n@),
            RecordData::Ptr(n) => RecordDataView::Ptr(n@),
            RecordData::Mx { preference, exchange } => RecordDataView::Mx {
                preference,
                exchange: exchange@,
            },
            RecordData::Srv { priority, weight, port, target } => RecordDataView::Srv {
                priority,
                weight,
                port,
                target: target@,
            },
            RecordData::Txt(t) => RecordDataView::Txt(t@),
            RecordData::Soa(s) => RecordDataView::Soa(s@),
            RecordData::Raw(b) => RecordDataView::Raw(b@),
        }
    }
}

impl RecordData {
    /// The record type of this payload; a raw payload counts as `All`.
    pub fn as_type(&self) -> (t: RecordType)
        ensures
            t == self@.record_type(),
    {
        match self {
            RecordData::A(_) => RecordType::A,
            RecordData::Aaaa(_) => RecordType::Aaaa,
            RecordData::Cname(_) => RecordType::Cname,
            RecordData::Ns(_) => RecordType::Ns,
            RecordData::Ptr(_) => RecordType::Ptr,
            RecordData::Mx { .. } => RecordType::Mx,
            RecordData::Srv { .. } => RecordType::Srv,
            RecordData::Txt(_) => RecordType::Txt,
            RecordData::Soa(_) => RecordType::Soa,
            RecordData::Raw(_) => RecordType::All,
        }
    }
}

/// One resource record of an answer, authority or additional section.
#[derive(Debug, Clone, PartialEq, Eq)]
pub struct Record {
    pub name: String,
    pub class: Class,
    /// Seconds for which the record may be kept.
    pub ttl: u32,
    pub data: RecordData,
}

/// What a record holds, as mathematical values.
pub struct RecordView {
    pub name: Seq<char>,
    pub class: Class,
    pub ttl: u32,
    pub data: RecordDataView,
}

impl View for Record {
    type V = RecordView;

    open spec fn view(&self) -> RecordView {
        RecordView { name: self.name@, class: self.class, ttl: self.ttl, data: self.data@ }
    }
}

/// The name that starts at `at` inside a payload that ends before `end`, and
/// the bytes it takes there. The name may point back into the message, but
/// its own bytes must lie inside the payload.
pub open spec fn name_within(msg: Seq<u8>, at: int, end: int) -> Result<(Seq<char>, int), DnsError> {
    if at >= end {
        Err(DnsError::UnexpectedEof)
    } else {
        match decode_name_spec(msg, at) {
            Ok((name, taken)) => if at + taken > end {
                Err(DnsError::UnexpectedEof)
            } else {
                Ok((name, taken))
            },
            Err(err) => Err(err),
        }
    }
}

/// An address payload: the bytes from `start` to `end`, which must be `size` many.
pub open spec fn address_spec(msg: Seq<u8>, start: int, end: int, size: int) -> Result<
    Seq<u8>,
    DnsError,
> {
    if end - start != size {
        Err(DnsError::InvalidLength)
    } else {
        Ok(msg.subrange(start, end))
    }
}

/// A mail exchange payload: a 16-bit preference, then a name.
pub open spec fn mx_spec(msg: Seq<u8>, start: int, end: int) -> Result<RecordDataView, DnsError> {
    if end - start < 2 {
        Err(DnsError::UnexpectedEof)
    } else {
        match name_within(msg, start + 2, end) {
            Ok((name, _)) => Ok(
                RecordDataView::Mx { preference: u16_at(msg, start) as u16, exchange: name },
            ),
            Err(err) => Err(err),
        }
    }
}

/// A service payload: 16-bit priority, weight and port, then a name.
pub open spec fn srv_spec(msg: Seq<u8>, start: int, end: int) -> Result<RecordDataView, DnsError> {
    if end - start < 6 {
        Err(DnsError::UnexpectedEof)
    } else {
        match name_within(msg, start + 6, end) {
            Ok((name, _)) => Ok(
                RecordDataView::Srv {
                    priority: u16_at(msg, start) as u16,
                    weight: u16_at(msg, start + 2) as u16,
                    port: u16_at(msg, start + 4) as u16,
                    target: name,
                },
            ),
            Err(err) => Err(err),
        }
    }
}

/// A start-of-authority payload: two names, then four 32-bit numbers.
pub open spec fn soa_spec(msg: Seq<u8>, start: int, end: int) -> Result<RecordDataView, DnsError> {
    match name_within(msg, start, end) {
        Ok((mname, first)) => match name_within(msg, start + first, end) {
            Ok((rname, second)) => {
                let at = start + first + second;
                if at + 16 > end {
                    Err(DnsError::UnexpectedEof)
                } else {
                    Ok(
                        RecordDataView::Soa(
                            SoaDataView {
                                mname,
                                rname,
                                serial: u32_at(msg, at) as u32,
                                refresh: u32_at(msg, at + 4) as u32,
                                retry: u32_at(msg, at + 8) as u32,
                                expire: u32_at(msg, at + 12) as u32,
                            },
                        ),
                    )
                }
            },
            Err(err) => Err(err),
        },
        Err(err) => Err(err),
    }
}

/// The payload of `len` bytes at `start` of the message, read as the type
/// code asks. Addresses must fill the payload exactly; for the other known
/// types the fields must lie inside it, and bytes behind them are passed
/// over. Any other code keeps the bytes as they are.
pub open spec fn decode_rdata_spec(code: u16, msg: Seq<u8>, start: int, len: int) -> Result<
    RecordDataView,
    DnsError,
> {
    let end = start + len;
    if end > msg.len() {
        Err(DnsError::UnexpectedEof)
    } else if code == 1 {
        match address_spec(msg, start, end, 4) {
            Ok(a) => Ok(RecordDataView::A(a)),
            Err(err) => Err(err),
        }
    } else if code == 28 {
        match address_spec(msg, start, end, 16) {
            Ok(a) => Ok(RecordDataView::Aaaa(a)),
            Err(err) => Err(err),
        }
    } else if code == 5 || code == 2 || code == 12 {
        match name_within(msg, start, end) {
            Ok((name, _)) => Ok(
                if code == 5 {
                    RecordDataView::Cname(name)
                } else if code == 2 {
                    RecordDataView::Ns(name)
                } else {
                    RecordDataView::Ptr(name)
                },
            ),
            Err(err) => Err(err),
        }
    } else if code == 15 {
        mx_spec(msg, start, end)
    } else if code == 33 {
        srv_spec(msg, start, end)
    } else if code == 16 {
        Ok(RecordDataView::Txt(bytes_text(msg.subrange(start, end))))
    } else if code == 6 {
        soa_spec(msg, start, end)
    } else {
        Ok(RecordDataView::Raw(msg.subrange(start, end)))
    }
}

/// Reads the name at `at` inside a payload that ends before `end`.
pub fn decode_name_within(msg: &[u8], at: usize, end: usize) -> (r: Result<
    (String, usize),
    DnsError,
>)
    ensures
        match r {
            Ok((name, taken)) => name_within(msg@, at as int, end as int) == Ok::<
                (Seq<char>, int),
                DnsError,
            >((name@, taken as int)) && at + taken <= end,
            Err(err) => name_within(msg@, at as int, end as int) == Err::<
                (Seq<char>, int),
                DnsError,
            >(err),
        },
{
    if at >= end {
        return Err(DnsError::UnexpectedEof);
    }
    match decode_name(msg, at) {
        Ok((name, taken)) => {
            if taken > end - at {
                Err(DnsError::UnexpectedEof)
            } else {
                Ok((name, taken))
            }
        },
        Err(err) => Err(err),
    }
}

fn decode_a(msg: &[u8], start: usize, end: usize) -> (r: Result<[u8; 4], DnsError>)
    requires
        start <= end <= msg@.len(),
    ensures
        match r {
            Ok(a) => address_spec(msg@, start as int, end as int, 4) == Ok::<Seq<u8>, DnsError>(a@),
            Err(err) => address_spec(msg@, start as int, end as int, 4) == Err::<
                Seq<u8>,
                DnsError,
            >(err),
        },
{
    if end - start != 4 {
        return Err(DnsError::InvalidLength);
    }
    let a: [u8; 4] = [msg[start], msg[start + 1], msg[start + 2], msg[start + 3]];
    assert(a@ =~= msg@.subrange(start as int, end as int));
    Ok(a)
}

fn decode_aaaa(msg: &[u8], start: usize, end: usize) -> (r: Result<[u8; 16], DnsError>)
    requires
        start <= end <= msg@.len(),
    ensures
        match r {
            Ok(a) => address_spec(msg@, start as int, end as int, 16) == Ok::<Seq<u8>, DnsError>(
                a@,
            ),
            Err(err) => address_spec(msg@, start as int, end as int, 16) == Err::<
                Seq<u8>,
                DnsError,
            >(err),
        },
{
    if end - start != 16 {
        return Err(DnsError::InvalidLength);
    }
    let mut a: [u8; 16] = [0u8; 16];
    let mut i: usize = 0;
    while i < 16
        invariant
            i <= 16,
            start + 16 == end,
            end <= msg@.len(),
            forall|k: int| 0 <= k < i ==> a@[k] == msg@[start + k],
        decreases 16 - i,
    {
        a[i] = msg[start + i];
        i += 1;
    }
    assert(a@ =~= msg@.subrange(start as int, end as int));
    Ok(a)
}

fn decode_mx(msg: &[u8], start: usize, end: usize) -> (r: Result<RecordData, DnsError>)
    requires
        start <= end <= msg@.len(),
    ensures
        match r {
            Ok(data) => mx_spec(msg@, start as int, end as int) == Ok::<RecordDataView, DnsError>(
                data@,
            ),
            Err(err) => mx_spec(msg@, start as int, end as int) == Err::<RecordDataView, DnsError>(
                err,
            ),
        },
{
    if end - start < 2 {
        return Err(DnsError::UnexpectedEof);
    }
    let preference = read_u16(msg, start)?;
    match decode_name_within(msg, start + 2, end) {
        Ok((exchange, _)) => Ok(RecordData::Mx { preference, exchange }),
        Err(err) => Err(err),
    }
}

fn decode_srv(msg: &[u8], start: usize, end: usize) -> (r: Result<RecordData, DnsError>)
    requires
        start <= end <= msg@.len(),
    ensures
        match r {
            Ok(data) => srv_spec(msg@, start as int, end as int) == Ok::<RecordDataView, DnsError>(
                data@,
            ),
            Err(err) => srv_spec(msg@, start as int, end as int) == Err::<
                RecordDataView,
                DnsError,
            >(err),
        },
{
    if end - start < 6 {
        return Err(DnsError::UnexpectedEof);
    }
    let priority = read_u16(msg, start)?;
    let weight = read_u16(msg, start + 2)?;
    let port = read_u16(msg, start + 4)?;
    match decode_name_within(msg, start + 6, end) {
        Ok((target, _)) => Ok(RecordData::Srv { priority, weight, port, target }),
        Err(err) => Err(err),
    }
}

fn decode_soa(msg: &[u8], start: usize, end: usize) -> (r: Result<RecordData, DnsError>)
    requires
        start <= end <= msg@.len(),
    ensures
        match r {
            Ok(data) => soa_spec(msg@, start as int, end as int) == Ok::<RecordDataView, DnsError>(
                data@,
            ),
            Err(err) => soa_spec(msg@, start as int, end as int) == Err::<
                RecordDataView,
                DnsError,
            >(err),
        },
{
    match decode_name_within(msg, start, end) {
        Ok((mname, first)) => match decode_name_within(msg, start + first, end) {
            Ok((rname, second)) => {
                let at = start + first + second;
                if end - at < 16 {
                    return Err(DnsError::UnexpectedEof);
                }
                let serial = read_u32(msg, at)?;
                let refresh = read_u32(msg, at + 4)?;
                let retry = read_u32(msg, at + 8)?;
                let expire = read_u32(msg, at + 12)?;
                Ok(RecordData::Soa(SoaData { mname, rname, serial, refresh, retry, expire }))
            },
            Err(err) => Err(err),
        },
        Err(err) => Err(err),
    }
}

/// Decodes the payload of `rdata_len` bytes that starts at `rdata_start` of
/// the whole message, by the raw type code of its record.
pub fn decode_rdata(type_code: u16, message: &[u8], rdata_start: usize, rdata_len: usize) -> (r:
    Result<RecordData, DnsError>)
    ensures
        match r {
            Ok(data) => decode_rdata_spec(
                type_code,
                message@,
                rdata_start as int,
                rdata_len as int,
            ) == Ok::<RecordDataView, DnsError>(data@),
            Err(err) => decode_rdata_spec(
                type_code,
                message@,
                rdata_start as int,
                rdata_len as int,
            ) == Err::<RecordDataView, DnsError>(err),
        },
{
    if rdata_start > message.len() || rdata_len > message.len() - rdata_start {
        return Err(DnsError::UnexpectedEof);
    }
    let start = rdata_start;
    let end = rdata_start + rdata_len;
    if type_code == 1 {
        match decode_a(message, start, end) {
            Ok(a) => Ok(RecordData::A(a)),
            Err(err) => Err(err),
        }
    } else if type_code == 28 {
        match decode_aaaa(message, start, end) {
            Ok(a) => Ok(RecordData::Aaaa(a)),
            Err(err) => Err(err),
        }
    } else if type_code == 5 || type_code == 2 || type_code == 12 {
        match decode_name_within(message, start, end) {
            Ok((name, _)) => {
                if type_code == 5 {
                    Ok(RecordData::Cname(name))
                } else if type_code == 2 {
                    Ok(RecordData::Ns(name))
                } else {
                    Ok(RecordData::Ptr(name))
                }
            },
            Err(err) => Err(err),
        }
    } else if type_code == 15 {
        decode_mx(message, start, end)
    } else if type_code == 33 {
        decode_srv(message, start, end)
    } else if type_code == 16 {
        Ok(RecordData::Txt(text_of_bytes(slice_subrange(message, start, end))))
    } else if type_code == 6 {
        decode_soa(message, start, end)
    } else {
        Ok(RecordData::Raw(slice_to_vec(slice_subrange(message, start, end))))
    }
}

} // verus!
