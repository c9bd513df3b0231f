use dnsget::bits::BitBuffer;
use dnsget::dns_types::{Class, RecordType};
use dnsget::input::normalize_name;
use dnsget::message::encode_query;
use dnsget::name::decode_name;
use std::str::FromStr;

fn bits(text: &str) -> Vec<bool> {
    text.chars().filter(|c| *c != ' ').map(|c| c == '1').collect()
}

#[test]
fn type_code_bits_most_significant_first() {
    let mut bv = BitBuffer::new();
    assert_eq!(bv.len(), 0);
    RecordType::Aaaa.serialize(&mut bv);
    assert_eq!(bv.len(), 16);
    assert_eq!(bv.to_bits(), bits("0000 0000 0001 1100"));
    RecordType::All.serialize(&mut bv);
    assert_eq!(bv.to_bits(), bits("0000 0000 0001 1100 0000 0000 1111 1111"));
}

#[test]
fn class_code_bits() {
    let mut bv = BitBuffer::new();
    Class::IN.serialize(&mut bv);
    assert_eq!(bv.to_bits(), bits("0000 0000 0000 0001"));
}

#[test]
fn pushed_numbers_keep_what_was_there() {
    let mut bv = BitBuffer::new();
    assert!(bv.push_u16(0x8001));
    assert!(bv.push_u16(0x1234));
    assert_eq!(bv.to_bits(), bits("1000 0000 0000 0001 0001 0010 0011 0100"));
}

#[test]
fn names_get_their_closing_separator() {
    assert_eq!(normalize_name("example.com"), Some("example.com.".to_string()));
    assert_eq!(normalize_name("example.com."), Some("example.com.".to_string()));
    assert_eq!(normalize_name(""), Some(".".to_string()));
    assert_eq!(normalize_name("m\u{fc}nchen.de"), None);
}

#[test]
fn normalized_name_round_trips_through_a_query() {
    let name = normalize_name("www.example.org").unwrap();
    let query = encode_query(1, &name, RecordType::Mx).unwrap();
    assert_eq!(decode_name(&query, 12), Ok((name.clone(), name.len() + 1)));
}

#[test]
fn record_types_by_name() {
    assert_eq!(RecordType::from_name("a"), Ok(RecordType::A));
    assert_eq!(RecordType::from_name("AAAA"), Ok(RecordType::Aaaa));
    assert_eq!(RecordType::from_name("cName"), Ok(RecordType::Cname));
    assert_eq!(RecordType::from_name("soa"), Ok(RecordType::Soa));
    assert_eq!(RecordType::from_name("ns"), Ok(RecordType::Ns));
    assert_eq!(RecordType::from_name("mx"), Ok(RecordType::Mx));
    assert_eq!(RecordType::from_name("txt"), Ok(RecordType::Txt));
    assert_eq!(RecordType::from_name("ptr"), Ok(RecordType::Ptr));
    assert_eq!(RecordType::from_name("srv"), Ok(RecordType::Srv));
    assert_eq!(RecordType::from_name("all"), Ok(RecordType::All));
    assert_eq!(
        RecordType::from_name("spf"),
        Err("SPF is not a valid DNS record type".to_string())
    );
    assert_eq!(RecordType::from_str("Txt"), Ok(RecordType::Txt));
    assert_eq!(RecordType::from_upper_name(&"txt".to_string()), None);
}

#[test]
fn record_type_names_read_back() {
    let all = [
        RecordType::A,
        RecordType::Aaaa,
        RecordType::Cname,
        RecordType::Soa,
        RecordType::Ns,
        RecordType::Mx,
        RecordType::Txt,
        RecordType::Ptr,
        RecordType::Srv,
        RecordType::All,
    ];
    for t in all {
        assert_eq!(RecordType::from_name(t.name()), Ok(t));
    }
    assert_eq!(RecordType::Aaaa.name(), "AAAA");
    assert_eq!(Class::IN.name(), "IN");
}
