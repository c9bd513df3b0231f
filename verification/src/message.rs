//! Whole messages: composing a query, and decomposing a response into its
//! header, questions and records.

use vstd::prelude::*;
use crate::dns_types::{Class, RecordType};
use crate::error::DnsError;
use crate::header::{Header, HEADER_LEN};
use crate::name::{decode_name, decode_name_spec, encode_name, encode_name_spec};
use crate::record::{decode_rdata, decode_rdata_spec, Record, RecordView};
use crate::wire::{be16, push_u16, read_u16, read_u32, u16_at, u32_at};

verus! {

/// The size of the buffer that a response over UDP is received into.
pub const MAX_UDP_BYTES: usize = 512;

/// One entry of the question section.
#[derive(Debug, Clone, PartialEq, Eq)]
pub struct Question {
    pub qname: String,
    pub qtype: RecordType,
    pub qclass: Class,
}

/// What a question holds, as mathematical values.
pub struct QuestionView {
    pub qname: Seq<char>,
    pub qtype: RecordType,
    pub qclass: Class,
}

impl View for Question {
    type V = QuestionView;

    open spec fn view(&self) -> QuestionView {
        QuestionView { qname: self.qname@, qtype: self.qtype, qclass: self.qclass }
    }
}

/// A decoded message.
#[derive(Debug, Clone, PartialEq, Eq)]
pub struct Message {
    pub header: Header,
    pub question: Vec<Question>,
    pub answer: Vec<Record>,
    pub authority: Vec<Record>,
    pub additional: Vec<Record>,
}

/// What a message holds, as mathematical values.
pub struct MessageView {
    pub header: Header,
    pub question: Seq<QuestionView>,
    pub answer: Seq<RecordView>,
    pub authority: Seq<RecordView>,
    pub additional: Seq<RecordView>,
}

/// The questions of a list, each as its mathematical value.
pub open spec fn questions_view(qs: Seq<Question>) -> Seq<QuestionView> {
    Seq::new(qs.len(), |i: int| qs[i]@)
}

/// The records of a list, each as its mathematical value.
pub open spec fn records_view(rs: Seq<Record>) -> Seq<RecordView> {
    Seq::new(rs.len(), |i: int| rs[i]@)
}

impl View for Message {
    type V = MessageView;

    open spec fn view(&self) -> MessageView {
        MessageView {
            header: self.header,
            question: questions_view(self.question@),
            answer: records_view(self.answer@),
            authority: records_view(self.authority@),
            additional: records_view(self.additional@),
        }
    }
}

/// The bytes of a query: the header of a standard query with one question,
/// the name, the type code and the code of the Internet class.
pub open spec fn encode_query_spec(id: u16, name: Seq<char>, qtype: RecordType) -> Result<
    Seq<u8>,
    DnsError,
> {
    match encode_name_spec(name) {
        Ok(wire) => Ok(Header::query_spec(id).wire() + wire + be16(qtype.code()) + be16(Class::IN.code())),
        Err(err) => Err(err),
    }
}

/// The question at `pos`, and the offset behind it: a name, then a type code
/// and a class code, both of which must be known.
pub open spec fn parse_question(buf: Seq<u8>, pos: int) -> Result<(QuestionView, int), DnsError> {
    match decode_name_spec(buf, pos) {
        Ok((qname, taken)) => {
            let at = pos + taken;
            if at + 4 > buf.len() {
                Err(DnsError::UnexpectedEof)
            } else {
                match RecordType::of_code(u16_at(buf, at) as u16) {
                    Ok(qtype) => match Class::of_code(u16_at(buf, at + 2) as u16) {
                        Ok(qclass) => Ok((QuestionView { qname, qtype, qclass }, at + 4)),
                        Err(err) => Err(err),
                    },
                    Err(err) => Err(err),
                }
            }
        },
        Err(err) => Err(err),
    }
}

/// The record at `pos`, and the offset behind it: a name, a type code, a
/// class code that must be known, the time to live, the length of the
/// payload, and the payload read by the type code.
pub open spec fn parse_record(buf: Seq<u8>, pos: int) -> Result<(RecordView, int), DnsError> {
    match decode_name_spec(buf, pos) {
        Ok((name, taken)) => {
            let at = pos + taken;
            if at + 10 > buf.len() {
                Err(DnsError::UnexpectedEof)
            } else {
                match Class::of_code(u16_at(buf, at + 2) as u16) {
                    Ok(class) => {
                        let len = u16_at(buf, at + 8);
                        match decode_rdata_spec(u16_at(buf, at) as u16, buf, at + 10, len) {
                            Ok(data) => Ok(
                                (
                                    RecordView { name, class, ttl: u32_at(buf, at + 4) as u32, data },
                                    at + 10 + len,
                                ),
                            ),
                            Err(err) => Err(err),
                        }
                    },
                    Err(err) => Err(err),
                }
            }
        },
        Err(err) => Err(err),
    }
}

/// `count` questions one behind the other from `pos` on, and the offset behind the last.
pub open spec fn parse_questions(buf: Seq<u8>, pos: int, count: nat) -> Result<
    (Seq<QuestionView>, int),
    DnsError,
>
    decreases count,
{
    if count == 0 {
        Ok((Seq::empty(), pos))
    } else {
        match parse_question(buf, pos) {
            Ok((q, next)) => match parse_questions(buf, next, (count - 1) as nat) {
                Ok((rest, end)) => Ok((seq![q] + rest, end)),
                Err(err) => Err(err),
            },
            Err(err) => Err(err),
        }
    }
}

/// `count` records one behind the other from `pos` on, and the offset behind the last.
pub open spec fn parse_records(buf: Seq<u8>, pos: int, count: nat) -> Result<
    (Seq<RecordView>, int),
    DnsError,
>
    decreases count,
{
    if count == 0 {
        Ok((Seq::empty(), pos))
    } else {
        match parse_record(buf, pos) {
            Ok((r, next)) => match parse_records(buf, next, (count - 1) as nat) {
                Ok((rest, end)) => Ok((seq![r] + rest, end)),
                Err(err) => Err(err),
            },
            Err(err) => Err(err),
        }
    }
}

/// The message that a buffer holds: the header, then as many questions,
/// answers, authority records and additional records as the header counts.
/// The first failure is the failure of the whole.
pub open spec fn decode_spec(buf: Seq<u8>) -> Result<MessageView, DnsError> {
    if buf.len() < HEADER_LEN {
        Err(DnsError::UnexpectedEof)
    } else {
        let header = Header::of_wire(buf);
        match parse_questions(buf, HEADER_LEN as int, header.qdcount as nat) {
            Ok((question, after_questions)) => match parse_records(buf, after_questions, header.ancount as nat) {
                Ok((answer, after_answers)) => match parse_records(buf, after_answers, header.nscount as nat) {
                    Ok((authority, after_authority)) => match parse_records(buf, after_authority, header.arcount as nat) {
                        Ok((additional, _)) => Ok(
                            MessageView { header, question, answer, authority, additional },
                        ),
                        Err(err) => Err(err),
                    },
                    Err(err) => Err(err),
                },
                Err(err) => Err(err),
            },
            Err(err) => Err(err),
        }
    }
}

/// Composes a standard query for `name` and `qtype` under the transaction id `id`.
pub fn encode_query(id: u16, name: &str, qtype: RecordType) -> (r: Result<Vec<u8>, DnsError>)
    ensures
        match r {
            Ok(bytes) => encode_query_spec(id, name@, qtype) == Ok::<Seq<u8>, DnsError>(bytes@),
            Err(err) => encode_query_spec(id, name@, qtype) == Err::<Seq<u8>, DnsError>(err),
        },
{
    let mut wire = match encode_name(name) {
        Ok(wire) => wire,
        Err(err) => {
            return Err(err);
        },
    };
    let mut out = Header::query(id).encode();
    out.append(&mut wire);
    push_u16(&mut out, qtype.to_code());
    push_u16(&mut out, Class::IN.to_code());
    Ok(out)
}

/// Reads one question at `pos`.
pub fn decode_question(buf: &[u8], pos: usize) -> (r: Result<(Question, usize), DnsError>)
    ensures
        match r {
            Ok((q, next)) => parse_question(buf@, pos as int) == Ok::<(QuestionView, int), DnsError>(
                (q@, next as int),
            ) && next <= buf@.len(),
            Err(err) => parse_question(buf@, pos as int) == Err::<(QuestionView, int), DnsError>(
                err,
            ),
        },
{
    let (qname, taken) = match decode_name(buf, pos) {
        Ok((qname, taken)) => (qname, taken),
        Err(err) => {
            return Err(err);
        },
    };
    let len = buf.len();
    let at = pos + taken;
    if len - at < 4 {
        return Err(DnsError::UnexpectedEof);
    }
    let type_code = read_u16(buf, at)?;
    let class_code = read_u16(buf, at + 2)?;
    let qtype = match RecordType::from_code(type_code) {
        Ok(t) => t,
        Err(err) => {
            return Err(err);
        },
    };
    let qclass = match Class::from_code(class_code) {
        Ok(c) => c,
        Err(err) => {
            return Err(err);
        },
    };
    Ok((Question { qname, qtype, qclass }, at + 4))
}

/// Reads one record at `pos`.
pub fn decode_record(buf: &[u8], pos: usize) -> (r: Result<(Record, usize), DnsError>)
    ensures
        match r {
            Ok((rec, next)) => parse_record(buf@, pos as int) == Ok::<(RecordView, int), DnsError>(
                (rec@, next as int),
            ) && next <= buf@.len(),
            Err(err) => parse_record(buf@, pos as int) == Err::<(RecordView, int), DnsError>(err),
        },
{
    let (name, taken) = match decode_name(buf, pos) {
        Ok((name, taken)) => (name, taken),
        Err(err) => {
            return Err(err);
        },
    };
    let len = buf.len();
    let at = pos + taken;
    if len - at < 10 {
        return Err(DnsError::UnexpectedEof);
    }
    let type_code = read_u16(buf, at)?;
    let class_code = read_u16(buf, at + 2)?;
    let ttl = read_u32(buf, at + 4)?;
    let len = read_u16(buf, at + 8)?;
    let class = match Class::from_code(class_code) {
        Ok(c) => c,
        Err(err) => {
            return Err(err);
        },
    };
    let data = match decode_rdata(type_code, buf, at + 10, len as usize) {
        Ok(d) => d,
        Err(err) => {
            return Err(err);
        },
    };
    Ok((Record { name, class, ttl, data }, at + 10 + len as usize))
}

/// Reads `count` questions from `pos` on.
pub fn decode_questions(buf: &[u8], pos: usize, count: u16) -> (r: Result<
    (Vec<Question>, usize),
    DnsError,
>)
    ensures
        match r {
            Ok((qs, next)) => parse_questions(buf@, pos as int, count as nat) == Ok::<
                (Seq<QuestionView>, int),
                DnsError,
            >((questions_view(qs@), next as int)),
            Err(err) => parse_questions(buf@, pos as int, count as nat) == Err::<
                (Seq<QuestionView>, int),
                DnsError,
            >(err),
        },
{
    let ghost total = parse_questions(buf@, pos as int, count as nat);
    let mut out: Vec<Question> = Vec::new();
    let mut cur = pos;
    let mut left = count;
    assert(questions_view(out@) + Seq::<QuestionView>::empty() =~= Seq::<QuestionView>::empty());
    while left > 0
        invariant
            total == parse_questions(buf@, pos as int, count as nat),
            total == match parse_questions(buf@, cur as int, left as nat) {
                Ok((rest, end)) => Ok::<(Seq<QuestionView>, int), DnsError>(
                    (questions_view(out@) + rest, end),
                ),
                Err(err) => Err(err),
            },
        decreases left,
    {
        let ghost before = out@;
        match decode_question(buf, cur) {
            Ok((q, next)) => {
                proof {
                    if let Ok((rest, _)) = parse_questions(buf@, next as int, (left - 1) as nat) {
                        assert(questions_view(before) + (seq![q@] + rest) =~= questions_view(
                            before.push(q),
                        ) + rest);
                    }
                }
                out.push(q);
                cur = next;
                left = left - 1;
            },
            Err(err) => {
                return Err(err);
            },
        }
    }
    assert(questions_view(out@) + Seq::<QuestionView>::empty() =~= questions_view(out@));
    Ok((out, cur))
}

/// Reads `count` records from `pos` on.
pub fn decode_records(buf: &[u8], pos: usize, count: u16) -> (r: Result<
    (Vec<Record>, usize),
    DnsError,
>)
    ensures
        match r {
            Ok((rs, next)) => parse_records(buf@, pos as int, count as nat) == Ok::<
                (Seq<RecordView>, int),
                DnsError,
            >((records_view(rs@), next as int)),
            Err(err) => parse_records(buf@, pos as int, count as nat) == Err::<
                (Seq<RecordView>, int),
                DnsError,
            >(err),
        },
{
    let ghost total = parse_records(buf@, pos as int, count as nat);
    let mut out: Vec<Record> = Vec::new();
    let mut cur = pos;
    let mut left = count;
    assert(records_view(out@) + Seq::<RecordView>::empty() =~= Seq::<RecordView>::empty());
    while left > 0
        invariant
            total == parse_records(buf@, pos as int, count as nat),
            total == match parse_records(buf@, cur as int, left as nat) {
                Ok((rest, end)) => Ok::<(Seq<RecordView>, int), DnsError>(
                    (records_view(out@) + rest, end),
                ),
                Err(err) => Err(err),
            },
        decreases left,
    {
        let ghost before = out@;
        match decode_record(buf, cur) {
            Ok((rec, next)) => {
                proof {
                    if let Ok((rest, _)) = parse_records(buf@, next as int, (left - 1) as nat) {
                        assert(records_view(before) + (seq![rec@] + rest) =~= records_view(
                            before.push(rec),
                        ) + rest);
                    }
                }
                out.push(rec);
                cur = next;
                left = left - 1;
            },
            Err(err) => {
                return Err(err);
            },
        }
    }
    assert(records_view(out@) + Seq::<RecordView>::empty() =~= records_view(out@));
    Ok((out, cur))
}

/// Decomposes a response into its header, questions and records; a failure
/// anywhere fails the whole, so no message is ever returned in part.
pub fn decode(bytes: &[u8]) -> (r: Result<Message, DnsError>)
    ensures
        match r {
            Ok(msg) => decode_spec(bytes@) == Ok::<MessageView, DnsError>(msg@),
            Err(err) => decode_spec(bytes@) == Err::<MessageView, DnsError>(err),
        },
{
    let header = match Header::decode(bytes) {
        Ok(h) => h,
        Err(err) => {
            return Err(err);
        },
    };
    let (question, after_questions) = match decode_questions(bytes, HEADER_LEN, header.qdcount) {
        Ok((list, next)) => (list, next),
        Err(err) => {
            return Err(err);
        },
    };
    let (answer, after_answers) = match decode_records(bytes, after_questions, header.ancount) {
        Ok((list, next)) => (list, next),
        Err(err) => {
            return Err(err);
        },
    };
    let (authority, after_authority) = match decode_records(bytes, after_answers, header.nscount) {
        Ok((list, next)) => (list, next),
        Err(err) => {
            return Err(err);
        },
    };
    let (additional, _) = match decode_records(bytes, after_authority, header.arcount) {
        Ok((list, next)) => (list, next),
        Err(err) => {
            return Err(err);
        },
    };
    Ok(Message { header, question, answer, authority, additional })
}

} // verus!
