use dnsget::dns_types::{Class, RecordType};
use dnsget::error::DnsError;
use dnsget::header::{Header, ResponseCode};
use dnsget::message::{decode, decode_question, decode_record, encode_query, Question};
use dnsget::name::{decode_name, encode_name, text_of_bytes};
use dnsget::record::{decode_rdata, Record, RecordData, SoaData};
use dnsget::wire::{read_u16, read_u32};

fn example_question() -> Vec<u8> {
    let mut v = vec![7u8];
    v.extend_from_slice(b"example");
    v.push(3);
    v.extend_from_slice(b"com");
    v.push(0);
    v.extend_from_slice(&[0, 1, 0, 1]);
    v
}

fn response_header(ancount: u8) -> Vec<u8> {
    vec![0x12, 0x34, 0x81, 0x80, 0, 1, 0, ancount, 0, 0, 0, 0]
}

fn response_with_answer(answer: &[u8]) -> Vec<u8> {
    let mut v = response_header(1);
    v.extend_from_slice(&example_question());
    v.extend_from_slice(answer);
    v
}

#[test]
fn query_for_example_com_is_29_exact_bytes() {
    let bytes = encode_query(0x1234, "example.com.", RecordType::A).unwrap();
    let mut expected = vec![0x12, 0x34, 0x01, 0x00, 0, 1, 0, 0, 0, 0, 0, 0];
    expected.extend_from_slice(&example_question());
    assert_eq!(bytes.len(), 29);
    assert_eq!(bytes, expected);
}

#[test]
fn query_carries_type_code() {
    let bytes = encode_query(7, "a.", RecordType::Aaaa).unwrap();
    assert_eq!(bytes, vec![0, 7, 1, 0, 0, 1, 0, 0, 0, 0, 0, 0, 1, b'a', 0, 0, 28, 0, 1]);
}

#[test]
fn query_with_bad_name_fails() {
    assert_eq!(encode_query(1, "a..b.", RecordType::A), Err(DnsError::EmptyLabel));
    assert_eq!(encode_query(1, "caf\u{e9}.", RecordType::A), Err(DnsError::NonAsciiName));
}

#[test]
fn answer_with_compressed_owner_name() {
    let msg = response_with_answer(&[0xC0, 0x0C, 0, 1, 0, 1, 0, 0, 0x01, 0x2C, 0, 4, 93, 184, 216, 34]);
    let decoded = decode(&msg).unwrap();
    assert_eq!(decoded.header.id, 0x1234);
    assert!(decoded.header.qr);
    assert!(decoded.header.rd);
    assert!(decoded.header.ra);
    assert_eq!(decoded.header.resp_code, ResponseCode::NoError);
    assert_eq!(
        decoded.question,
        vec![Question { qname: "example.com.".to_string(), qtype: RecordType::A, qclass: Class::IN }]
    );
    assert_eq!(
        decoded.answer,
        vec![Record {
            name: "example.com.".to_string(),
            class: Class::IN,
            ttl: 300,
            data: RecordData::A([93, 184, 216, 34]),
        }]
    );
    assert!(decoded.authority.is_empty());
    assert!(decoded.additional.is_empty());
}

#[test]
fn txt_payload_is_its_text() {
    assert_eq!(decode_rdata(16, b"hello", 0, 5), Ok(RecordData::Txt("hello".to_string())));
    assert_eq!(decode_rdata(16, b"xxhelloyy", 2, 5), Ok(RecordData::Txt("hello".to_string())));
}

#[test]
fn payload_longer_than_buffer_is_eof() {
    let msg = response_with_answer(&[0xC0, 0x0C, 0, 1, 0, 1, 0, 0, 0x01, 0x2C, 0, 5, 93, 184, 216, 34]);
    assert_eq!(decode(&msg), Err(DnsError::UnexpectedEof));
    assert_eq!(decode_rdata(1, &[1, 2, 3, 4], 1, 4), Err(DnsError::UnexpectedEof));
    assert_eq!(decode_rdata(999, &[1, 2, 3, 4], 5, 0), Err(DnsError::UnexpectedEof));
    assert_eq!(decode_rdata(999, &[1, 2, 3, 4], usize::MAX, 2), Err(DnsError::UnexpectedEof));
}

#[test]
fn unknown_type_is_kept_raw() {
    let mut msg = vec![0x12, 0x34, 0x81, 0x80, 0, 1, 0, 2, 0, 0, 0, 0];
    msg.extend_from_slice(&example_question());
    msg.extend_from_slice(&[0xC0, 0x0C, 0x03, 0xE7, 0, 1, 0, 0, 0, 60, 0, 3, 9, 8, 7]);
    msg.extend_from_slice(&[0xC0, 0x0C, 0, 1, 0, 1, 0, 0, 0, 61, 0, 4, 10, 0, 0, 1]);
    let decoded = decode(&msg).unwrap();
    assert_eq!(decoded.answer.len(), 2);
    assert_eq!(decoded.answer[0].data, RecordData::Raw(vec![9, 8, 7]));
    assert_eq!(decoded.answer[0].ttl, 60);
    assert_eq!(decoded.answer[0].data.as_type(), RecordType::All);
    assert_eq!(decoded.answer[1].data, RecordData::A([10, 0, 0, 1]));
    assert_eq!(decoded.answer[1].name, "example.com.");
}

#[test]
fn name_round_trip_on_examples() {
    for name in ["example.com.", "a.", "", "www.a-b.example.org."] {
        let wire = encode_name(name).unwrap();
        assert_eq!(wire.len(), name.len() + 1);
        assert_eq!(decode_name(&wire, 0), Ok((name.to_string(), wire.len())));
    }
}

#[test]
fn name_without_closing_separator_encodes_alike() {
    assert_eq!(encode_name("example.com"), encode_name("example.com."));
    assert_eq!(encode_name("example.com").unwrap(), b"\x07example\x03com\x00".to_vec());
}

#[test]
fn name_failures() {
    assert_eq!(encode_name("b\u{fc}cher.de."), Err(DnsError::NonAsciiName));
    assert_eq!(encode_name("."), Err(DnsError::EmptyLabel));
    assert_eq!(encode_name("a..b"), Err(DnsError::EmptyLabel));
    let long = "a".repeat(64);
    assert_eq!(encode_name(&long), Err(DnsError::LabelTooLong));
    let ok = "a".repeat(63);
    assert_eq!(encode_name(&ok).unwrap().len(), 65);
    let label = "a".repeat(63);
    let four = format!("{label}.{label}.{label}.{label}.");
    assert_eq!(encode_name(&four), Err(DnsError::NameTooLong));
    let short = "a".repeat(61);
    let fits = format!("{label}.{label}.{label}.{short}.");
    assert_eq!(encode_name(&fits).unwrap().len(), 255);
    let over = format!("{label}.{label}.{label}.{short}a.");
    assert_eq!(encode_name(&over), Err(DnsError::NameTooLong));
}

#[test]
fn pointer_to_itself_or_forward_is_a_loop() {
    assert_eq!(decode_name(&[0xC0, 0x00], 0), Err(DnsError::CompressionLoop));
    assert_eq!(decode_name(&[0, 0, 0xC0, 0x02], 2), Err(DnsError::CompressionLoop));
    assert_eq!(decode_name(&[0xC0, 0x02, 0], 0), Err(DnsError::CompressionLoop));
    // a pointer that leads back to a label which runs into the pointer again
    assert_eq!(decode_name(&[1, b'a', 0xC0, 0x00], 2), Err(DnsError::CompressionLoop));
    assert_eq!(decode_name(&[0xFF, 0xFF], 0), Err(DnsError::CompressionLoop));
}

#[test]
fn pointer_chain_backwards_is_followed() {
    let buf = [1, b'c', 0, 1, b'b', 0xC0, 0x00, 1, b'a', 0xC0, 0x03];
    assert_eq!(decode_name(&buf, 7), Ok(("a.b.c.".to_string(), 4)));
    assert_eq!(decode_name(&buf, 3), Ok(("b.c.".to_string(), 4)));
    assert_eq!(decode_name(&buf, 0), Ok(("c.".to_string(), 3)));
}

#[test]
fn name_decoding_failures() {
    assert_eq!(decode_name(&[], 0), Err(DnsError::UnexpectedEof));
    assert_eq!(decode_name(&[0], 1), Err(DnsError::UnexpectedEof));
    assert_eq!(decode_name(&[3, b'a', b'b'], 0), Err(DnsError::UnexpectedEof));
    assert_eq!(decode_name(&[1, b'a'], 0), Err(DnsError::UnexpectedEof));
    assert_eq!(decode_name(&[0, 0xC0], 1), Err(DnsError::UnexpectedEof));
    assert_eq!(decode_name(&[64, 0], 0), Err(DnsError::LabelTooLong));
    assert_eq!(decode_name(&[0x80, 0], 0), Err(DnsError::LabelTooLong));
    let mut long = Vec::new();
    for _ in 0..4 {
        long.push(63);
        long.extend_from_slice(&[b'a'; 63]);
    }
    long.push(0);
    assert_eq!(decode_name(&long, 0), Err(DnsError::NameTooLong));
}

#[test]
fn root_name_is_empty_text() {
    assert_eq!(decode_name(&[0], 0), Ok((String::new(), 1)));
    assert_eq!(encode_name(""), Ok(vec![0]));
}

#[test]
fn record_type_codes_round_trip() {
    let all = [
        (RecordType::A, 1),
        (RecordType::Ns, 2),
        (RecordType::Cname, 5),
        (RecordType::Soa, 6),
        (RecordType::Ptr, 12),
        (RecordType::Mx, 15),
        (RecordType::Txt, 16),
        (RecordType::Aaaa, 28),
        (RecordType::Srv, 33),
        (RecordType::All, 255),
    ];
    for (t, code) in all {
        assert_eq!(t.to_code(), code);
        assert_eq!(RecordType::from_code(code), Ok(t));
        assert_eq!(RecordType::from_code(t.to_code()), Ok(t));
    }
    assert_eq!(RecordType::from_code(999), Err(DnsError::InvalidRecordType(999)));
    assert_eq!(RecordType::from_code(0), Err(DnsError::InvalidRecordType(0)));
}

#[test]
fn class_codes_round_trip() {
    assert_eq!(Class::IN.to_code(), 1);
    assert_eq!(Class::from_code(Class::IN.to_code()), Ok(Class::IN));
    assert_eq!(Class::from_code(3), Err(DnsError::InvalidClass(3)));
}

#[test]
fn header_bytes_are_exact() {
    let h = Header::query(0x1234);
    assert_eq!(h.encode(), vec![0x12, 0x34, 0x01, 0x00, 0, 1, 0, 0, 0, 0, 0, 0]);
    let full = Header {
        id: 0xABCD,
        qr: true,
        opcode: 2,
        aa: true,
        tc: false,
        rd: true,
        ra: true,
        z: 0,
        resp_code: ResponseCode::NameError,
        qdcount: 1,
        ancount: 2,
        nscount: 3,
        arcount: 0x0405,
    };
    let bytes = full.encode();
    assert_eq!(bytes, vec![0xAB, 0xCD, 0x95, 0x83, 0, 1, 0, 2, 0, 3, 4, 5]);
    assert_eq!(Header::decode(&bytes), Ok(full));
}

#[test]
fn header_decoding() {
    assert_eq!(Header::decode(&[0; 11]), Err(DnsError::UnexpectedEof));
    let h = Header::decode(&[0, 1, 0x02, 0x7A, 0, 0, 0, 0, 0, 0, 0, 0, 99]).unwrap();
    assert_eq!(h.id, 1);
    assert!(!h.qr);
    assert_eq!(h.opcode, 0);
    assert!(!h.aa);
    assert!(h.tc);
    assert!(!h.rd);
    assert!(!h.ra);
    assert_eq!(h.z, 7);
    assert_eq!(h.resp_code, ResponseCode::Other(10));
    let refused = Header::decode(&[0, 1, 0x80, 0x05, 0, 0, 0, 0, 0, 0, 0, 0]).unwrap();
    assert_eq!(refused.resp_code, ResponseCode::Refused);
    assert!(refused.qr);
}

#[test]
fn reserved_bits_are_written_as_zero() {
    let mut h = Header::query(1);
    h.z = 7;
    h.opcode = 0x1F;
    h.resp_code = ResponseCode::Other(0x13);
    assert_eq!(h.encode()[2..4], [0x79, 0x03]);
}

#[test]
fn address_payloads_must_fit_exactly() {
    assert_eq!(decode_rdata(1, &[1, 2, 3], 0, 3), Err(DnsError::InvalidLength));
    assert_eq!(decode_rdata(1, &[1, 2, 3, 4, 5], 0, 5), Err(DnsError::InvalidLength));
    assert_eq!(decode_rdata(1, &[9, 1, 2, 3, 4], 1, 4), Ok(RecordData::A([1, 2, 3, 4])));
    let v6: Vec<u8> = (1..=16).collect();
    assert_eq!(
        decode_rdata(28, &v6, 0, 16),
        Ok(RecordData::Aaaa([1, 2, 3, 4, 5, 6, 7, 8, 9, 10, 11, 12, 13, 14, 15, 16]))
    );
    assert_eq!(decode_rdata(28, &v6, 0, 15), Err(DnsError::InvalidLength));
}

#[test]
fn name_payloads() {
    let buf = [3, b'f', b'o', b'o', 0, 0xC0, 0x00];
    assert_eq!(decode_rdata(5, &buf, 5, 2), Ok(RecordData::Cname("foo.".to_string())));
    assert_eq!(decode_rdata(2, &buf, 0, 5), Ok(RecordData::Ns("foo.".to_string())));
    assert_eq!(decode_rdata(12, &buf, 5, 2), Ok(RecordData::Ptr("foo.".to_string())));
    assert_eq!(decode_rdata(5, &buf, 0, 4), Err(DnsError::UnexpectedEof));
    assert_eq!(decode_rdata(5, &buf, 0, 0), Err(DnsError::UnexpectedEof));
}

#[test]
fn mx_and_srv_payloads() {
    let mx = [0, 10, 4, b'm', b'a', b'i', b'l', 0];
    assert_eq!(
        decode_rdata(15, &mx, 0, 8),
        Ok(RecordData::Mx { preference: 10, exchange: "mail.".to_string() })
    );
    assert_eq!(decode_rdata(15, &mx, 0, 1), Err(DnsError::UnexpectedEof));
    let srv = [0, 1, 0, 2, 0x1F, 0x90, 1, b'h', 0];
    assert_eq!(
        decode_rdata(33, &srv, 0, 9),
        Ok(RecordData::Srv { priority: 1, weight: 2, port: 8080, target: "h.".to_string() })
    );
    assert_eq!(decode_rdata(33, &srv, 0, 5), Err(DnsError::UnexpectedEof));
    assert_eq!(decode_rdata(33, &srv, 0, 8), Err(DnsError::UnexpectedEof));
}

#[test]
fn soa_payload() {
    let mut soa = vec![2, b'n', b's', 0, 1, b'r', 0];
    soa.extend_from_slice(&[0, 0, 0, 1, 0, 0, 0x0E, 0x10, 0, 0, 2, 0x58, 0x00, 0x09, 0x3A, 0x80]);
    let expected = RecordData::Soa(SoaData {
        mname: "ns.".to_string(),
        rname: "r.".to_string(),
        serial: 1,
        refresh: 3600,
        retry: 600,
        expire: 604800,
    });
    assert_eq!(decode_rdata(6, &soa, 0, soa.len()), Ok(expected.clone()));
    assert_eq!(expected.as_type(), RecordType::Soa);
    assert_eq!(decode_rdata(6, &soa, 0, soa.len() - 1), Err(DnsError::UnexpectedEof));
    soa.extend_from_slice(&[0, 0, 0, 60]);
    assert_eq!(decode_rdata(6, &soa, 0, soa.len()), Ok(expected));
}

#[test]
fn question_codes_must_be_known() {
    let mut q = vec![1, b'a', 0, 0x03, 0xE7, 0, 1];
    assert_eq!(decode_question(&q, 0), Err(DnsError::InvalidRecordType(999)));
    q[3] = 0;
    q[4] = 255;
    assert_eq!(
        decode_question(&q, 0),
        Ok((Question { qname: "a.".to_string(), qtype: RecordType::All, qclass: Class::IN }, 7))
    );
    q[6] = 3;
    assert_eq!(decode_question(&q, 0), Err(DnsError::InvalidClass(3)));
    assert_eq!(decode_question(&q[..6], 0), Err(DnsError::UnexpectedEof));
}

#[test]
fn record_class_must_be_known() {
    let rec = [0, 0, 1, 0, 4, 0, 0, 0, 1, 0, 0];
    assert_eq!(decode_record(&rec, 0), Err(DnsError::InvalidClass(4)));
    let ok = [0, 0, 16, 0, 1, 0, 0, 0, 1, 0, 2, b'h', b'i', 77];
    assert_eq!(
        decode_record(&ok, 0),
        Ok((
            Record { name: String::new(), class: Class::IN, ttl: 1, data: RecordData::Txt("hi".to_string()) },
            13
        ))
    );
    assert_eq!(decode_record(&ok[..10], 0), Err(DnsError::UnexpectedEof));
}

#[test]
fn message_sections_in_order() {
    let mut msg = vec![0, 9, 0x84, 0x03, 0, 0, 0, 1, 0, 1, 0, 1];
    msg.extend_from_slice(&[1, b'a', 0, 0, 16, 0, 1, 0, 0, 0, 1, 0, 1, b'x']);
    msg.extend_from_slice(&[0xC0, 12, 0, 16, 0, 1, 0, 0, 0, 2, 0, 1, b'y']);
    msg.extend_from_slice(&[0xC0, 12, 0, 16, 0, 1, 0, 0, 0, 3, 0, 1, b'z']);
    let m = decode(&msg).unwrap();
    assert_eq!(m.header.resp_code, ResponseCode::NameError);
    assert!(m.header.aa);
    assert!(m.question.is_empty());
    assert_eq!(m.answer[0].data, RecordData::Txt("x".to_string()));
    assert_eq!(m.authority[0].data, RecordData::Txt("y".to_string()));
    assert_eq!(m.authority[0].ttl, 2);
    assert_eq!(m.additional[0].data, RecordData::Txt("z".to_string()));
    assert_eq!(m.additional[0].name, "a.");
    msg.truncate(msg.len() - 1);
    assert_eq!(decode(&msg), Err(DnsError::UnexpectedEof));
    assert_eq!(decode(&msg[..5]), Err(DnsError::UnexpectedEof));
}

#[test]
fn big_endian_reads() {
    assert_eq!(read_u16(&[0x12, 0x34], 0), Ok(0x1234));
    assert_eq!(read_u16(&[0x12, 0x34], 1), Err(DnsError::UnexpectedEof));
    assert_eq!(read_u32(&[0, 0xDE, 0xAD, 0xBE, 0xEF], 1), Ok(0xDEADBEEF));
    assert_eq!(read_u32(&[0, 0xDE, 0xAD, 0xBE, 0xEF], 2), Err(DnsError::UnexpectedEof));
    assert_eq!(read_u32(&[1, 2, 3], usize::MAX), Err(DnsError::UnexpectedEof));
}

#[test]
fn bytes_become_characters_of_the_same_code() {
    assert_eq!(text_of_bytes(&[b'h', b'i', 0xE9]), "hi\u{e9}");
    assert_eq!(text_of_bytes(&[]), "");
}

#[test]
fn payload_types() {
    assert_eq!(RecordData::A([0; 4]).as_type(), RecordType::A);
    assert_eq!(RecordData::Aaaa([0; 16]).as_type(), RecordType::Aaaa);
    assert_eq!(RecordData::Cname(String::new()).as_type(), RecordType::Cname);
    assert_eq!(RecordData::Ns(String::new()).as_type(), RecordType::Ns);
    assert_eq!(RecordData::Ptr(String::new()).as_type(), RecordType::Ptr);
    assert_eq!(RecordData::Mx { preference: 0, exchange: String::new() }.as_type(), RecordType::Mx);
    assert_eq!(
        RecordData::Srv { priority: 0, weight: 0, port: 0, target: String::new() }.as_type(),
        RecordType::Srv
    );
    assert_eq!(RecordData::Txt(String::new()).as_type(), RecordType::Txt);
    assert_eq!(RecordData::Raw(vec![]).as_type(), RecordType::All);
}

#[test]
fn longest_name_round_trips() {
    let label = "a".repeat(63);
    let short = "b".repeat(61);
    let name = format!("{label}.{label}.{label}.{short}.");
    let wire = encode_name(&name).unwrap();
    assert_eq!(wire.len(), 255);
    assert_eq!(decode_name(&wire, 0), Ok((name, 255)));
}

#[test]
fn header_round_trips_through_its_bytes() {
    let h = Header {
        id: 0xFFFF,
        qr: true,
        opcode: 15,
        aa: false,
        tc: true,
        rd: false,
        ra: true,
        z: 0,
        resp_code: ResponseCode::Other(15),
        qdcount: 65535,
        ancount: 0,
        nscount: 256,
        arcount: 255,
    };
    assert_eq!(Header::decode(&h.encode()), Ok(h));
    let q = Header::query(77);
    assert_eq!(Header::decode(&q.encode()), Ok(q));
}

#[test]
fn a_query_decodes_as_the_message_asked_for() {
    let bytes = encode_query(0xBEEF, "mail.example.org", RecordType::Mx).unwrap();
    let msg = decode(&bytes).unwrap();
    assert_eq!(msg.header, Header::query(0xBEEF));
    assert_eq!(
        msg.question,
        vec![Question {
            qname: "mail.example.org.".to_string(),
            qtype: RecordType::Mx,
            qclass: Class::IN
        }]
    );
    assert!(msg.answer.is_empty() && msg.authority.is_empty() && msg.additional.is_empty());
}

#[test]
fn label_bytes_outside_ascii_become_characters() {
    assert_eq!(decode_name(&[2, 0xE9, b'.', 0], 0), Ok(("\u{e9}..".to_string(), 4)));
}
