//! What holds of payloads whatever the message around them.

use vstd::prelude::*;
use crate::error::DnsError;
use crate::message::parse_record;
use crate::name::{bytes_text, decode_name_spec};
use crate::record::{decode_rdata_spec, RecordDataView, RecordView};
use crate::wire::u16_at;

verus! {

/// Whether a type code has a payload layout of its own.
pub open spec fn is_known_layout(code: u16) -> bool {
    code == 1 || code == 2 || code == 5 || code == 6 || code == 12 || code == 15 || code == 16
        || code == 28 || code == 33
}

/// A payload that is declared longer than what is left of the message fails
/// as cut short, whatever its type.
pub proof fn lemma_payload_overrun(code: u16, msg: Seq<u8>, start: int, len: int)
    requires
        start + len > msg.len(),
    ensures
        decode_rdata_spec(code, msg, start, len) == Err::<RecordDataView, DnsError>(
            DnsError::UnexpectedEof,
        ),
{
}

/// A record whose name and class are in order, but whose payload is declared
/// longer than what is left of the message, fails as cut short.
pub proof fn lemma_record_payload_overrun(buf: Seq<u8>, pos: int)
    requires
        decode_name_spec(buf, pos) is Ok,
        ({
            let at = pos + decode_name_spec(buf, pos)->Ok_0.1;
            &&& at + 10 <= buf.len()
            &&& u16_at(buf, at + 2) == 1
            &&& at + 10 + u16_at(buf, at + 8) > buf.len()
        }),
    ensures
        parse_record(buf, pos) == Err::<(RecordView, int), DnsError>(DnsError::UnexpectedEof),
{
}

/// A payload of a type without a layout of its own is kept byte for byte.
pub proof fn lemma_unknown_type_kept_raw(code: u16, msg: Seq<u8>, start: int, len: int)
    requires
        !is_known_layout(code),
        start + len <= msg.len(),
    ensures
        decode_rdata_spec(code, msg, start, len) == Ok::<RecordDataView, DnsError>(
            RecordDataView::Raw(msg.subrange(start, start + len)),
        ),
{
}

/// A text payload is the text of exactly the bytes that its length declares.
pub proof fn lemma_text_payload(msg: Seq<u8>, start: int, len: int)
    requires
        start + len <= msg.len(),
    ensures
        decode_rdata_spec(16, msg, start, len) == Ok::<RecordDataView, DnsError>(
            RecordDataView::Txt(bytes_text(msg.subrange(start, start + len))),
        ),
{
}

/// What a code with a layout of its own decodes to is that code's own variant.
pub proof fn lemma_payload_variant(code: u16, msg: Seq<u8>, start: int, len: int)
    requires
        is_known_layout(code),
        decode_rdata_spec(code, msg, start, len) is Ok,
    ensures
        decode_rdata_spec(code, msg, start, len)->Ok_0.record_type().code() == code,
{
}

} // verus!
