//! What holds of names across encoding and decoding.

use vstd::prelude::*;
use vstd::utf8::is_ascii_chars;
use crate::error::DnsError;
use crate::name::{bytes_text, decode_name_spec, encode_labels, encode_name_spec, label_end, name_bytes, parse_labels, pointer_target, MAX_WIRE_NAME, SEPARATOR};

verus! {

/// Whether a name is written the way decoding writes it: empty, or closed by a separator.
pub open spec fn is_rooted(name: Seq<char>) -> bool {
    name.len() == 0 || name.last() == '.'
}

proof fn lemma_label_end(s: Seq<u8>, i: int)
    requires
        0 <= i <= s.len(),
    ensures
        i <= label_end(s, i) <= s.len(),
        forall|k: int| i <= k < label_end(s, i) ==> s[k] != SEPARATOR,
        label_end(s, i) < s.len() ==> s[label_end(s, i)] == SEPARATOR,
    decreases s.len() - i,
{
    if i < s.len() && s[i] != SEPARATOR {
        lemma_label_end(s, i + 1);
    }
}

proof fn lemma_wire_len(s: Seq<u8>, i: int)
    requires
        0 <= i <= s.len(),
        s.len() == 0 || s.last() == SEPARATOR,
        encode_labels(s, i) is Ok,
    ensures
        encode_labels(s, i)->Ok_0.len() == s.len() - i + 1,
    decreases s.len() - i,
{
    if i < s.len() {
        lemma_label_end(s, i);
        let e = label_end(s, i);
        assert(e < s.len());
        lemma_wire_len(s, e + 1);
    }
}

proof fn lemma_parse_embedded(s: Seq<u8>, buf: Seq<u8>, base: int, i: int)
    requires
        0 <= base,
        0 <= i <= s.len(),
        s.len() == 0 || s.last() == SEPARATOR,
        s.len() + 1 <= MAX_WIRE_NAME,
        base + s.len() + 1 <= buf.len(),
        encode_labels(s, i) == Ok::<Seq<u8>, DnsError>(
            buf.subrange(base + i, base + s.len() + 1),
        ),
    ensures
        parse_labels(buf, base + i, base, i) == Ok::<(Seq<u8>, int), DnsError>(
            (s.skip(i), base + s.len() as int + 1),
        ),
    decreases s.len() - i,
{
    let stop = base + s.len() + 1;
    let w = buf.subrange(base + i, stop);
    if i == s.len() {
        assert(w[0] == 0u8);
        assert(buf[base + i] == w[0]);
        assert(s.skip(i) =~= Seq::<u8>::empty());
    } else {
        lemma_label_end(s, i);
        let e = label_end(s, i);
        assert(e < s.len());
        let n = e - i;
        let rest = encode_labels(s, e + 1)->Ok_0;
        let here = seq![n as u8] + s.subrange(i, e) + rest;
        assert(w == here);
        assert(buf[base + i] == w[0]);
        assert(here[0] == n as u8);
        assert(buf.subrange(base + i + 1, base + e + 1) =~= s.subrange(i, e)) by {
            assert forall|k: int| 0 <= k < n implies #[trigger] buf.subrange(
                base + i + 1,
                base + e + 1,
            )[k] == s.subrange(i, e)[k] by {
                assert(buf[base + i + 1 + k] == w[1 + k]);
                assert(here[1 + k] == s.subrange(i, e)[k]);
            }
        }
        lemma_wire_len(s, e + 1);
        assert(buf.subrange(base + e + 1, stop) =~= rest) by {
            assert forall|k: int| 0 <= k < rest.len() implies #[trigger] buf.subrange(
                base + e + 1,
                stop,
            )[k] == rest[k] by {
                assert(buf[base + e + 1 + k] == w[n + 1 + k]);
                assert(here[n + 1 + k] == rest[k]);
            }
        }
        lemma_parse_embedded(s, buf, base, e + 1);
        assert(buf.subrange(base + i + 1, base + e + 1).push(SEPARATOR) + s.skip(e + 1) =~= s.skip(
            i,
        ));
    }
}

proof fn lemma_label_end_closed(s: Seq<u8>, i: int)
    requires
        0 <= i <= s.len(),
    ensures
        label_end(s.push(SEPARATOR), i) == label_end(s, i),
    decreases s.len() - i,
{
    let closed = s.push(SEPARATOR);
    if i < s.len() {
        assert(closed[i] == s[i]);
        if s[i] != SEPARATOR {
            lemma_label_end_closed(s, i + 1);
        }
    }
}

proof fn lemma_encode_closed(s: Seq<u8>, i: int)
    requires
        0 <= i < s.len(),
        s.last() != SEPARATOR,
    ensures
        encode_labels(s.push(SEPARATOR), i) == encode_labels(s, i),
    decreases s.len() - i,
{
    let closed = s.push(SEPARATOR);
    lemma_label_end(s, i);
    lemma_label_end_closed(s, i);
    let e = label_end(s, i);
    assert(closed.subrange(i, e) =~= s.subrange(i, e));
    if e < s.len() {
        assert(e + 1 < s.len());
        lemma_encode_closed(s, e + 1);
    }
}

/// The name as decoding writes it: with a separator behind every label, the last included.
pub open spec fn decoded_form(name: Seq<char>) -> Seq<char> {
    if is_rooted(name) {
        name
    } else {
        name.push('.')
    }
}

/// A name that encodes, written with its closing separator, decodes to
/// itself from wherever its wire form stands in a buffer, and takes exactly
/// the bytes of that wire form, whatever stands before and behind them.
pub proof fn lemma_name_round_trip_within(name: Seq<char>, wire: Seq<u8>, buf: Seq<u8>, at: int)
    requires
        is_rooted(name),
        encode_name_spec(name) == Ok::<Seq<u8>, DnsError>(wire),
        0 <= at,
        at + wire.len() <= buf.len(),
        buf.subrange(at, at + wire.len()) == wire,
    ensures
        decode_name_spec(buf, at) == Ok::<(Seq<char>, int), DnsError>((name, wire.len() as int)),
{
    let s = name_bytes(name);
    assert(is_ascii_chars(name));
    if name.len() > 0 {
        assert(s.last() == name.last() as u8);
    }
    lemma_wire_len(s, 0);
    lemma_parse_embedded(s, buf, at, 0);
    assert(s.skip(0) =~= s);
    assert(bytes_text(s) =~= name) by {
        assert forall|i: int| 0 <= i < name.len() implies #[trigger] bytes_text(s)[i]
            == name[i] by {
            assert('\0' <= name[i] <= '\u{7f}');
        }
    }
}

/// A name that encodes, written with its closing separator, decodes from its
/// own wire form to itself, and takes the whole of that wire form.
pub proof fn lemma_name_round_trip(name: Seq<char>, wire: Seq<u8>)
    requires
        is_rooted(name),
        encode_name_spec(name) == Ok::<Seq<u8>, DnsError>(wire),
    ensures
        decode_name_spec(wire, 0) == Ok::<(Seq<char>, int), DnsError>((name, wire.len() as int)),
{
    assert(wire.subrange(0, wire.len() as int) =~= wire);
    lemma_name_round_trip_within(name, wire, wire, 0);
}

/// A name encodes to the same bytes with and without its closing separator.
pub proof fn lemma_closing_separator_implied(name: Seq<char>)
    requires
        is_ascii_chars(name),
        !is_rooted(name),
    ensures
        encode_name_spec(name.push('.')) == encode_name_spec(name),
{
    let closed = name.push('.');
    assert(is_ascii_chars(closed)) by {
        assert forall|i: int| 0 <= i < closed.len() implies '\0' <= #[trigger] closed[i]
            <= '\u{7f}' by {
            if i < name.len() {
                assert(closed[i] == name[i]);
            }
        }
    }
    let s = name_bytes(name);
    assert(name_bytes(closed) =~= s.push(SEPARATOR));
    assert(s.last() == name.last() as u8);
    assert('\0' <= name.last() <= '\u{7f}');
    lemma_encode_closed(s, 0);
}

/// Every name that encodes decodes from its own wire form to itself with a
/// separator behind every label, and takes the whole of that wire form.
pub proof fn lemma_name_round_trip_any(name: Seq<char>, wire: Seq<u8>)
    requires
        encode_name_spec(name) == Ok::<Seq<u8>, DnsError>(wire),
    ensures
        decode_name_spec(wire, 0) == Ok::<(Seq<char>, int), DnsError>(
            (decoded_form(name), wire.len() as int),
        ),
{
    if is_rooted(name) {
        lemma_name_round_trip(name, wire);
    } else {
        lemma_closing_separator_implied(name);
        lemma_name_round_trip(name.push('.'), wire);
    }
}

/// A name that begins with a compression pointer to its own offset or to a
/// later one is refused as a loop.
pub proof fn lemma_pointer_must_go_back(buf: Seq<u8>, offset: int)
    requires
        0 <= offset,
        offset + 1 < buf.len(),
        buf[offset] >= 192,
        pointer_target(buf, offset) >= offset,
    ensures
        decode_name_spec(buf, offset) == Err::<(Seq<char>, int), DnsError>(
            DnsError::CompressionLoop,
        ),
{
}

/// Wherever reading comes upon a compression pointer that does not lead
/// strictly below the start of the stretch being read, it stops with a loop
/// failure; so every jump lowers that start, and reading ends.
pub proof fn lemma_pointer_below_limit(buf: Seq<u8>, pos: int, limit: int, used: int)
    requires
        0 <= pos,
        pos + 1 < buf.len(),
        buf[pos] >= 192,
        pointer_target(buf, pos) >= limit,
    ensures
        parse_labels(buf, pos, limit, used) == Err::<(Seq<u8>, int), DnsError>(
            DnsError::CompressionLoop,
        ),
{
}

proof fn lemma_parse_bounds(buf: Seq<u8>, pos: int, limit: int, used: int)
    requires
        0 <= used < MAX_WIRE_NAME,
        parse_labels(buf, pos, limit, used) is Ok,
    ensures
        used + parse_labels(buf, pos, limit, used)->Ok_0.0.len() < MAX_WIRE_NAME,
        pos < parse_labels(buf, pos, limit, used)->Ok_0.1 <= buf.len(),
    decreases limit, buf.len() - pos,
{
    if buf[pos] == 0 {
    } else if buf[pos] >= 192 {
        let target = pointer_target(buf, pos);
        lemma_parse_bounds(buf, target, target, used);
    } else {
        let next = pos + 1 + buf[pos];
        lemma_parse_bounds(buf, next, limit, used + buf[pos] + 1);
    }
}

/// A name that decodes is shorter than 255 characters, and the bytes it
/// takes at its offset are at least one and lie inside the buffer.
pub proof fn lemma_decoded_name_bounds(buf: Seq<u8>, offset: int)
    requires
        decode_name_spec(buf, offset) is Ok,
    ensures
        decode_name_spec(buf, offset)->Ok_0.0.len() < MAX_WIRE_NAME,
        1 <= decode_name_spec(buf, offset)->Ok_0.1 <= buf.len() - offset,
{
    lemma_parse_bounds(buf, offset, offset, 0);
}

} // verus!
