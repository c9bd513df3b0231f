//! Domain names on the wire: length-prefixed labels closed by the root label,
//! with backward compression pointers on the way in.

use vstd::prelude::*;
use vstd::string::*;
use vstd::utf8::is_ascii_chars;
use crate::error::DnsError;

verus! {

/// The byte that separates labels in a written name.
pub const SEPARATOR: u8 = 46;

/// The longest label, in bytes.
pub const MAX_LABEL: usize = 63;

/// The longest name on the wire, length bytes and root label included.
pub const MAX_WIRE_NAME: usize = 255;

/// The bytes of an ASCII text, one per character.
pub open spec fn name_bytes(s: Seq<char>) -> Seq<u8> {
    Seq::new(s.len(), |i: int| s[i] as u8)
}

/// The text that bytes stand for, one character per byte.
pub open spec fn bytes_text(b: Seq<u8>) -> Seq<char> {
    Seq::new(b.len(), |i: int| b[i] as char)
}

/// The end of the label that starts at `i`: the place of the next separator,
/// or the end of the name where none follows.
pub open spec fn label_end(s: Seq<u8>, i: int) -> int
    decreases s.len() - i,
{
    if i >= s.len() || s[i] == SEPARATOR {
        i
    } else {
        label_end(s, i + 1)
    }
}

/// The wire form of the labels of `s` from the label start `i` on, closed by
/// the root label; the first label that is empty or too long decides the failure.
pub open spec fn encode_labels(s: Seq<u8>, i: int) -> Result<Seq<u8>, DnsError>
    decreases s.len() - i,
{
    if i < 0 || i >= s.len() {
        Ok(seq![0u8])
    } else {
        let e = label_end(s, i);
        if e <= i {
            Err(DnsError::EmptyLabel)
        } else if e - i > MAX_LABEL {
            Err(DnsError::LabelTooLong)
        } else {
            let tail = if e >= s.len() {
                Ok(seq![0u8])
            } else {
                encode_labels(s, e + 1)
            };
            match tail {
                Ok(rest) => Ok(seq![(e - i) as u8] + s.subrange(i, e) + rest),
                Err(err) => Err(err),
            }
        }
    }
}

/// What encoding a name gives: a name with a character outside ASCII is
/// refused first, then the first bad label, then a wire form over 255 bytes.
pub open spec fn encode_name_spec(name: Seq<char>) -> Result<Seq<u8>, DnsError> {
    if !is_ascii_chars(name) {
        Err(DnsError::NonAsciiName)
    } else {
        match encode_labels(name_bytes(name), 0) {
            Ok(wire) => if wire.len() > MAX_WIRE_NAME {
                Err(DnsError::NameTooLong)
            } else {
                Ok(wire)
            },
            Err(err) => Err(err),
        }
    }
}

/// The offset that the compression pointer at `pos` gives: the low six bits
/// of its first byte, then its second byte.
pub open spec fn pointer_target(buf: Seq<u8>, pos: int) -> int {
    (buf[pos] - 192) * 256 + buf[pos + 1]
}

/// The name read from `pos` on, as its bytes with a separator behind each
/// label, and the offset just behind what was read before any jump.
///
/// `limit` is where the stretch being read began: a pointer must lead
/// strictly below it. `used` counts the wire bytes of the labels read so far.
pub open spec fn parse_labels(buf: Seq<u8>, pos: int, limit: int, used: int) -> Result<
    (Seq<u8>, int),
    DnsError,
>
    decreases limit, buf.len() - pos,
{
    if pos < 0 || pos >= buf.len() {
        Err(DnsError::UnexpectedEof)
    } else if buf[pos] == 0 {
        Ok((Seq::empty(), pos + 1))
    } else if buf[pos] >= 192 {
        if pos + 1 >= buf.len() {
            Err(DnsError::UnexpectedEof)
        } else if pointer_target(buf, pos) >= limit {
            Err(DnsError::CompressionLoop)
        } else {
            let target = pointer_target(buf, pos);
            match parse_labels(buf, target, target, used) {
                Ok((name, _)) => Ok((name, pos + 2)),
                Err(err) => Err(err),
            }
        }
    } else if buf[pos] > MAX_LABEL {
        Err(DnsError::LabelTooLong)
    } else if pos + 1 + buf[pos] > buf.len() {
        Err(DnsError::UnexpectedEof)
    } else if used + buf[pos] + 1 >= MAX_WIRE_NAME {
        Err(DnsError::NameTooLong)
    } else {
        let next = pos + 1 + buf[pos];
        match parse_labels(buf, next, limit, used + buf[pos] + 1) {
            Ok((rest, end)) => Ok((buf.subrange(pos + 1, next).push(SEPARATOR) + rest, end)),
            Err(err) => Err(err),
        }
    }
}

/// What decoding the name at `offset` gives: the name as text, and the number
/// of bytes it takes at `offset`.
pub open spec fn decode_name_spec(buf: Seq<u8>, offset: int) -> Result<(Seq<char>, int), DnsError> {
    match parse_labels(buf, offset, offset, 0) {
        Ok((name, end)) => Ok((bytes_text(name), end - offset)),
        Err(err) => Err(err),
    }
}

/// `String::push` of std, with the byte taken as the character of the same
/// code point: the text grows by exactly that character.
#[verifier::external_body]
fn push_byte(s: &mut String, b: u8)
    ensures
        final(s)@ == old(s)@.push(b as char),
{
    s.push(b as char)
}

/// The text of some bytes, one character per byte.
pub fn text_of_bytes(bytes: &[u8]) -> (s: String)
    ensures
        s@ == bytes_text(bytes@),
{
    let mut s = String::new();
    let mut i: usize = 0;
    while i < bytes.len()
        invariant
            i <= bytes.len(),
            s@ == bytes_text(bytes@.take(i as int)),
        decreases bytes.len() - i,
    {
        push_byte(&mut s, bytes[i]);
        i += 1;
        assert(s@ =~= bytes_text(bytes@.take(i as int)));
    }
    assert(bytes@.take(i as int) =~= bytes@);
    s
}

/// Encodes a name as length-prefixed labels closed by the root label.
///
/// Labels are parted by the separator; a separator at the end stands for the
/// root and may be left out.
pub fn encode_name(name: &str) -> (r: Result<Vec<u8>, DnsError>)
    ensures
        match r {
            Ok(wire) => encode_name_spec(name@) == Ok::<Seq<u8>, DnsError>(wire@),
            Err(err) => encode_name_spec(name@) == Err::<Seq<u8>, DnsError>(err),
        },
{
    if !name.is_ascii() {
        return Err(DnsError::NonAsciiName);
    }
    let b = name.as_bytes();
    proof {
        is_ascii_spec_bytes(name);
    }
    let ghost s = name_bytes(name@);
    assert(b@ =~= s);
    let n = b.len();
    let mut out: Vec<u8> = Vec::new();
    let mut i: usize = 0;
    while i < n
        invariant
            is_ascii_chars(name@),
            s == name_bytes(name@),
            b@ == s,
            n == s.len(),
            i <= n,
            encode_labels(s, 0) == match encode_labels(s, i as int) {
                Ok(rest) => Ok::<Seq<u8>, DnsError>(out@ + rest),
                Err(err) => Err(err),
            },
        decreases n - i,
    {
        let mut e = i;
        while e < n && b[e] != SEPARATOR
            invariant
                b@ == s,
                n == s.len(),
                i <= e <= n,
                label_end(s, e as int) == label_end(s, i as int),
            decreases n - e,
        {
            e += 1;
        }
        if e == i {
            return Err(DnsError::EmptyLabel);
        }
        if e - i > MAX_LABEL {
            return Err(DnsError::LabelTooLong);
        }
        let ghost before = out@;
        out.push((e - i) as u8);
        let mut k = i;
        while k < e
            invariant
                b@ == s,
                n == s.len(),
                i <= k <= e <= n,
                e - i <= MAX_LABEL,
                out@ == before.push((e - i) as u8) + s.subrange(i as int, k as int),
            decreases e - k,
        {
            out.push(b[k]);
            k += 1;
            assert(out@ =~= before.push((e - i) as u8) + s.subrange(i as int, k as int));
        }
        proof {
            let rest = if e >= n {
                Ok(seq![0u8])
            } else {
                encode_labels(s, e + 1)
            };
            if let Ok(r) = rest {
                assert(before + (seq![(e - i) as u8] + s.subrange(i as int, e as int) + r) =~= out@
                    + r);
            }
        }
        i = if e < n { e + 1 } else { n };
    }
    let ghost labels = out@;
    out.push(0);
    assert(out@ =~= labels + seq![0u8]);
    if out.len() > MAX_WIRE_NAME {
        return Err(DnsError::NameTooLong);
    }
    Ok(out)
}

/// Decodes the name that starts at `offset` of a whole message, following
/// compression pointers; returns the name, a separator behind each label, and
/// the number of bytes that the name takes at `offset`.
pub fn decode_name(buf: &[u8], offset: usize) -> (r: Result<(String, usize), DnsError>)
    ensures
        match r {
            Ok((name, taken)) => decode_name_spec(buf@, offset as int) == Ok::<
                (Seq<char>, int),
                DnsError,
            >((name@, taken as int)) && 1 <= taken && offset + taken <= buf@.len(),
            Err(err) => decode_name_spec(buf@, offset as int) == Err::<(Seq<char>, int), DnsError>(
                err,
            ),
        },
{
    let len = buf.len();
    if offset >= len {
        return Err(DnsError::UnexpectedEof);
    }
    let ghost total = parse_labels(buf@, offset as int, offset as int, 0);
    let mut acc: Vec<u8> = Vec::new();
    let mut pos: usize = offset;
    let mut limit: usize = offset;
    let mut used: usize = 0;
    let mut jumped = false;
    let mut end: usize = 0;
    loop
        invariant
            len == buf@.len(),
            pos <= len,
            limit <= len,
            used < MAX_WIRE_NAME,
            !jumped ==> offset <= pos,
            jumped ==> offset + 2 <= end <= len,
            total == parse_labels(buf@, offset as int, offset as int, 0),
            total == match parse_labels(buf@, pos as int, limit as int, used as int) {
                Ok((rest, e)) => Ok::<(Seq<u8>, int), DnsError>(
                    (acc@ + rest, if jumped { end as int } else { e }),
                ),
                Err(err) => Err(err),
            },
        decreases limit, len - pos,
    {
        if pos >= len {
            return Err(DnsError::UnexpectedEof);
        }
        let b = buf[pos];
        if b == 0 {
            let stop = if jumped { end } else { pos + 1 };
            let name = text_of_bytes(acc.as_slice());
            assert(acc@ + Seq::<u8>::empty() =~= acc@);
            return Ok((name, stop - offset));
        } else if b >= 192 {
            if pos + 1 >= len {
                return Err(DnsError::UnexpectedEof);
            }
            let target: usize = ((b - 192) as usize) * 256 + (buf[pos + 1] as usize);
            if target >= limit {
                return Err(DnsError::CompressionLoop);
            }
            if !jumped {
                end = pos + 2;
                jumped = true;
            }
            pos = target;
            limit = target;
        } else if b as usize > MAX_LABEL {
            return Err(DnsError::LabelTooLong);
        } else {
            let l = b as usize;
            if l > len - pos - 1 {
                return Err(DnsError::UnexpectedEof);
            }
            if used + l + 1 >= MAX_WIRE_NAME {
                return Err(DnsError::NameTooLong);
            }
            let ghost before = acc@;
            let mut k: usize = 0;
            while k < l
                invariant
                    len == buf@.len(),
                    k <= l,
                    pos + 1 + l <= len,
                    acc@ == before + buf@.subrange(pos + 1, pos + 1 + k),
                decreases l - k,
            {
                acc.push(buf[pos + 1 + k]);
                k += 1;
                assert(acc@ =~= before + buf@.subrange(pos + 1, pos + 1 + k));
            }
            acc.push(SEPARATOR);
            proof {
                let next = pos + 1 + l;
                if let Ok((rest, _)) = parse_labels(buf@, next, limit as int, used + l + 1) {
                    assert(before + (buf@.subrange(pos + 1, next).push(SEPARATOR) + rest) =~= acc@
                        + rest);
                }
            }
            used = used + l + 1;
            pos = pos + 1 + l;
        }
    }
}

} // verus!
