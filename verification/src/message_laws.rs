//! What holds of a query when it is read as a message.

use vstd::prelude::*;
use crate::dns_types::{Class, RecordType};
use crate::error::DnsError;
use crate::header::{lemma_header_round_trip_within, lemma_header_wire_len, Header, HEADER_LEN};
use crate::message::{
    decode_spec, encode_query_spec, parse_question, parse_questions, parse_records, MessageView,
    QuestionView,
};
use crate::name::{decode_name_spec, encode_name_spec};
use crate::name_laws::{
    decoded_form, is_rooted, lemma_closing_separator_implied, lemma_name_round_trip_within,
};
use crate::record::RecordView;
use crate::wire::{be16, u16_at};

verus! {

/// The message that a query is: its header, the one question, and no record.
pub open spec fn query_message(id: u16, name: Seq<char>, qtype: RecordType) -> MessageView {
    MessageView {
        header: Header::query_spec(id),
        question: seq![QuestionView { qname: decoded_form(name), qtype, qclass: Class::IN }],
        answer: Seq::empty(),
        authority: Seq::empty(),
        additional: Seq::empty(),
    }
}

proof fn lemma_layout(head: Seq<u8>, wire: Seq<u8>, qtype: u16, qclass: u16)
    ensures
        ({
            let bytes = head + wire + be16(qtype) + be16(qclass);
            let end = (head.len() + wire.len()) as int;
            &&& bytes.len() == end + 4
            &&& bytes.subrange(0, head.len() as int) == head
            &&& bytes.subrange(head.len() as int, end) == wire
            &&& u16_at(bytes, end) == qtype
            &&& u16_at(bytes, end + 2) == qclass
        }),
{
    let bytes = head + wire + be16(qtype) + be16(qclass);
    let end = (head.len() + wire.len()) as int;
    assert(bytes.subrange(0, head.len() as int) =~= head);
    assert(bytes.subrange(head.len() as int, end) =~= wire);
    assert(bytes[end] == be16(qtype)[0]);
    assert(bytes[end + 1] == be16(qtype)[1]);
    assert(bytes[end + 2] == be16(qclass)[0]);
    assert(bytes[end + 3] == be16(qclass)[1]);
}

proof fn lemma_one_question(bytes: Seq<u8>, at: int, q: QuestionView, taken: int)
    requires
        decode_name_spec(bytes, at) == Ok::<(Seq<char>, int), DnsError>((q.qname, taken)),
        at + taken + 4 <= bytes.len(),
        u16_at(bytes, at + taken) == q.qtype.code(),
        u16_at(bytes, at + taken + 2) == q.qclass.code(),
    ensures
        parse_questions(bytes, at, 1) == Ok::<(Seq<QuestionView>, int), DnsError>(
            (seq![q], at + taken + 4),
        ),
{
    let next = at + taken + 4;
    RecordType::lemma_code_round_trip(q.qtype);
    Class::lemma_code_round_trip(q.qclass);
    assert(parse_question(bytes, at) == Ok::<(QuestionView, int), DnsError>((q, next)));
    assert(parse_questions(bytes, next, 0) == Ok::<(Seq<QuestionView>, int), DnsError>(
        (Seq::empty(), next),
    ));
    assert(seq![q] + Seq::<QuestionView>::empty() =~= seq![q]);
}

proof fn lemma_only_questions(bytes: Seq<u8>, h: Header, qs: Seq<QuestionView>, end: int)
    requires
        bytes.len() >= HEADER_LEN,
        Header::of_wire(bytes) == h,
        h.ancount == 0,
        h.nscount == 0,
        h.arcount == 0,
        parse_questions(bytes, HEADER_LEN as int, h.qdcount as nat) == Ok::<
            (Seq<QuestionView>, int),
            DnsError,
        >((qs, end)),
    ensures
        decode_spec(bytes) == Ok::<MessageView, DnsError>(
            MessageView {
                header: h,
                question: qs,
                answer: Seq::empty(),
                authority: Seq::empty(),
                additional: Seq::empty(),
            },
        ),
{
    assert(parse_records(bytes, end, 0) == Ok::<(Seq<RecordView>, int), DnsError>(
        (Seq::empty(), end),
    ));
}

/// The bytes composed for a query decompose into the message that was
/// asked for: the header of the query, one question with the name as decoding
/// writes it, the type and the Internet class, and no record.
pub proof fn lemma_query_decodes(id: u16, name: Seq<char>, qtype: RecordType, bytes: Seq<u8>)
    requires
        encode_query_spec(id, name, qtype) == Ok::<Seq<u8>, DnsError>(bytes),
    ensures
        decode_spec(bytes) == Ok::<MessageView, DnsError>(query_message(id, name, qtype)),
{
    let h = Header::query_spec(id);
    let head = h.wire();
    let wire = encode_name_spec(name)->Ok_0;
    let full = decoded_form(name);
    let at = HEADER_LEN as int;
    lemma_header_wire_len(h);
    lemma_layout(head, wire, qtype.code(), Class::IN.code());
    lemma_header_round_trip_within(h, bytes);
    if is_rooted(name) {
        lemma_name_round_trip_within(name, wire, bytes, at);
    } else {
        lemma_closing_separator_implied(name);
        lemma_name_round_trip_within(name.push('.'), wire, bytes, at);
    }
    let q = QuestionView { qname: full, qtype, qclass: Class::IN };
    lemma_one_question(bytes, at, q, wire.len() as int);
    lemma_only_questions(bytes, h, seq![q], at + wire.len() + 4);
}

} // verus!
