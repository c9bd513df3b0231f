//! Record types and classes, and the 16-bit codes that stand for them on the wire.

use vstd::prelude::*;
use vstd::string::*;
use crate::bits::{bits_of, u16_bits, BitBuffer, MAX_BITS};
use crate::error::DnsError;

verus! {

/// The text in upper case, as `str::to_uppercase` of std gives it.
pub uninterp spec fn uppercase_of(s: Seq<char>) -> Seq<char>;

/// `str::to_uppercase` of std: the text with each character in upper case.
#[verifier::external_body]
fn to_upper(s: &str) -> (r: String)
    ensures
        r@ == uppercase_of(s@),
{
    s.to_uppercase()
}

/// The kinds of record this library knows how to ask for.
#[derive(Debug, Clone, Copy, PartialEq, Eq, Structural)]
pub enum RecordType {
    A,
    Aaaa,
    Cname,
    Soa,
    Ns,
    Mx,
    Txt,
    Ptr,
    Srv,
    All,
}

impl RecordType {
    /// The wire code of a record type.
    pub open spec fn code(self) -> u16 {
        match self {
            RecordType::A => 1,
            RecordType::Ns => 2,
            RecordType::Cname => 5,
            RecordType::Soa => 6,
            RecordType::Ptr => 12,
            RecordType::Mx => 15,
            RecordType::Txt => 16,
            RecordType::Aaaa => 28,
            RecordType::Srv => 33,
            RecordType::All => 255,
        }
    }

    /// The record type that a wire code stands for, or the failure for a code outside the table.
    pub open spec fn of_code(code: u16) -> Result<RecordType, DnsError> {
        if code == 1 {
            Ok(RecordType::A)
        } else if code == 2 {
            Ok(RecordType::Ns)
        } else if code == 5 {
            Ok(RecordType::Cname)
        } else if code == 6 {
            Ok(RecordType::Soa)
        } else if code == 12 {
            Ok(RecordType::Ptr)
        } else if code == 15 {
            Ok(RecordType::Mx)
        } else if code == 16 {
            Ok(RecordType::Txt)
        } else if code == 28 {
            Ok(RecordType::Aaaa)
        } else if code == 33 {
            Ok(RecordType::Srv)
        } else if code == 255 {
            Ok(RecordType::All)
        } else {
            Err(DnsError::InvalidRecordType(code))
        }
    }

    /// The name under which a record type is written.
    pub open spec fn name_spec(self) -> Seq<char> {
        match self {
            RecordType::A => "A"@,
            RecordType::Aaaa => "AAAA"@,
            RecordType::Cname => "CNAME"@,
            RecordType::Soa => "SOA"@,
            RecordType::Ns => "NS"@,
            RecordType::Mx => "MX"@,
            RecordType::Txt => "TXT"@,
            RecordType::Ptr => "PTR"@,
            RecordType::Srv => "SRV"@,
            RecordType::All => "ALL"@,
        }
    }

    /// The record type written as `s`, in upper case and in full.
    pub open spec fn named(s: Seq<char>) -> Option<RecordType> {
        if s == "A"@ {
            Some(RecordType::A)
        } else if s == "AAAA"@ {
            Some(RecordType::Aaaa)
        } else if s == "CNAME"@ {
            Some(RecordType::Cname)
        } else if s == "SOA"@ {
            Some(RecordType::Soa)
        } else if s == "NS"@ {
            Some(RecordType::Ns)
        } else if s == "MX"@ {
            Some(RecordType::Mx)
        } else if s == "TXT"@ {
            Some(RecordType::Txt)
        } else if s == "PTR"@ {
            Some(RecordType::Ptr)
        } else if s == "SRV"@ {
            Some(RecordType::Srv)
        } else if s == "ALL"@ {
            Some(RecordType::All)
        } else {
            None
        }
    }

    /// The name under which this record type is written.
    pub fn name(&self) -> (s: &'static str)
        ensures
            s@ == self.name_spec(),
    {
        match self {
            RecordType::A => "A",
            RecordType::Aaaa => "AAAA",
            RecordType::Cname => "CNAME",
            RecordType::Soa => "SOA",
            RecordType::Ns => "NS",
            RecordType::Mx => "MX",
            RecordType::Txt => "TXT",
            RecordType::Ptr => "PTR",
            RecordType::Srv => "SRV",
            RecordType::All => "ALL",
        }
    }

    /// The record type whose name is exactly `upper`.
    pub fn from_upper_name(upper: &String) -> (r: Option<RecordType>)
        ensures
            r == RecordType::named(upper@),
    {
        if *upper == String::from_str("A") {
            Some(RecordType::A)
        } else if *upper == String::from_str("AAAA") {
            Some(RecordType::Aaaa)
        } else if *upper == String::from_str("CNAME") {
            Some(RecordType::Cname)
        } else if *upper == String::from_str("SOA") {
            Some(RecordType::Soa)
        } else if *upper == String::from_str("NS") {
            Some(RecordType::Ns)
        } else if *upper == String::from_str("MX") {
            Some(RecordType::Mx)
        } else if *upper == String::from_str("TXT") {
            Some(RecordType::Txt)
        } else if *upper == String::from_str("PTR") {
            Some(RecordType::Ptr)
        } else if *upper == String::from_str("SRV") {
            Some(RecordType::Srv)
        } else if *upper == String::from_str("ALL") {
            Some(RecordType::All)
        } else {
            None
        }
    }

    /// The record type that `s` names, whatever the case of its letters; the
    /// failure holds the text in upper case and says that it names none.
    pub fn from_name(s: &str) -> (r: Result<RecordType, String>)
        ensures
            match r {
                Ok(t) => RecordType::named(uppercase_of(s@)) == Some(t),
                Err(msg) => RecordType::named(uppercase_of(s@)) is None && msg@ == uppercase_of(
                    s@,
                ) + " is not a valid DNS record type"@,
            },
    {
        let upper = to_upper(s);
        match RecordType::from_upper_name(&upper) {
            Some(t) => Ok(t),
            None => {
                let mut msg = upper;
                msg.append(" is not a valid DNS record type");
                Err(msg)
            },
        }
    }

    /// The wire code of this record type.
    pub fn to_code(&self) -> (c: u16)
        ensures
            c == self.code(),
    {
        match self {
            RecordType::A => 1,
            RecordType::Ns => 2,
            RecordType::Cname => 5,
            RecordType::Soa => 6,
            RecordType::Ptr => 12,
            RecordType::Mx => 15,
            RecordType::Txt => 16,
            RecordType::Aaaa => 28,
            RecordType::Srv => 33,
            RecordType::All => 255,
        }
    }

    /// The record type of a wire code; a code outside the table is refused
    /// with the code itself in the failure.
    pub fn from_code(code: u16) -> (r: Result<RecordType, DnsError>)
        ensures
            r == RecordType::of_code(code),
    {
        match code {
            1 => Ok(RecordType::A),
            2 => Ok(RecordType::Ns),
            5 => Ok(RecordType::Cname),
            6 => Ok(RecordType::Soa),
            12 => Ok(RecordType::Ptr),
            15 => Ok(RecordType::Mx),
            16 => Ok(RecordType::Txt),
            28 => Ok(RecordType::Aaaa),
            33 => Ok(RecordType::Srv),
            255 => Ok(RecordType::All),
            other => Err(DnsError::InvalidRecordType(other)),
        }
    }

    /// Appends the sixteen bits of this record type's code, the most significant first.
    pub fn serialize(&self, bv: &mut BitBuffer)
        requires
            bits_of(*old(bv)).len() + 16 <= MAX_BITS,
        ensures
            bits_of(*final(bv)) == bits_of(*old(bv)) + u16_bits(self.code()),
    {
        bv.push_u16(self.to_code());
    }

    /// Reading back the code of a record type gives that record type.
    pub proof fn lemma_code_round_trip(t: RecordType)
        ensures
            RecordType::of_code(t.code()) == Ok::<RecordType, DnsError>(t),
    {
    }

    /// A code that stands for a record type is the code of that record type,
    /// so no two codes stand for one type and no two types share a code.
    pub proof fn lemma_code_unique(code: u16, t: RecordType)
        ensures
            RecordType::of_code(code) == Ok::<RecordType, DnsError>(t) <==> code == t.code(),
    {
    }
}

/// Reads a record type by its name, whatever the case of its letters, as
/// `RecordType::from_name` does.
impl std::str::FromStr for RecordType {
    type Err = String;

    fn from_str(s: &str) -> (r: Result<RecordType, String>)
        ensures
            match r {
                Ok(t) => RecordType::named(uppercase_of(s@)) == Some(t),
                Err(msg) => RecordType::named(uppercase_of(s@)) is None && msg@ == uppercase_of(
                    s@,
                ) + " is not a valid DNS record type"@,
            },
    {
        RecordType::from_name(s)
    }
}

/// The classes of record; only the Internet class is in use.
#[derive(Debug, Clone, Copy, PartialEq, Eq, Structural)]
pub enum Class {
    IN,
}

impl Class {
    /// The name under which this class is written.
    pub fn name(&self) -> (s: &'static str)
        ensures
            s@ == "IN"@,
    {
        "IN"
    }

    /// The wire code of a class.
    pub open spec fn code(self) -> u16 {
        1
    }

    /// The class that a wire code stands for, or the failure for a code outside the table.
    pub open spec fn of_code(code: u16) -> Result<Class, DnsError> {
        if code == 1 {
            Ok(Class::IN)
        } else {
            Err(DnsError::InvalidClass(code))
        }
    }

    /// The wire code of this class.
    pub fn to_code(&self) -> (c: u16)
        ensures
            c == self.code(),
    {
        1
    }

    /// The class of a wire code; a code outside the table is refused with
    /// the code itself in the failure.
    pub fn from_code(code: u16) -> (r: Result<Class, DnsError>)
        ensures
            r == Class::of_code(code),
    {
        match code {
            1 => Ok(Class::IN),
            other => Err(DnsError::InvalidClass(other)),
        }
    }

    /// Appends the sixteen bits of this class's code, the most significant first.
    pub fn serialize(&self, bv: &mut BitBuffer)
        requires
            bits_of(*old(bv)).len() + 16 <= MAX_BITS,
        ensures
            bits_of(*final(bv)) == bits_of(*old(bv)) + u16_bits(self.code()),
    {
        bv.push_u16(self.to_code());
    }

    /// Reading back the code of a class gives that class.
    pub proof fn lemma_code_round_trip(c: Class)
        ensures
            Class::of_code(c.code()) == Ok::<Class, DnsError>(c),
    {
    }

    /// A code that stands for a class is the code of that class.
    pub proof fn lemma_code_unique(code: u16, c: Class)
        ensures
            Class::of_code(code) == Ok::<Class, DnsError>(c) <==> code == c.code(),
    {
    }
}

} // verus!
