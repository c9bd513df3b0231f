//! What a caller's text must go through before it is asked for.

use vstd::prelude::*;
use vstd::string::*;
use vstd::utf8::is_ascii_chars;
use std::str::FromStr;
use ascii::AsciiString;

verus! {

/// A name with its closing separator: the name itself where it ends in one,
/// else the name with one added.
pub open spec fn rooted_form(name: Seq<char>) -> Seq<char> {
    if name.len() > 0 && name.last() == '.' {
        name
    } else {
        name.push('.')
    }
}

/// `AsciiString::from_str` of the ascii crate, asked only whether it
/// succeeds: it does exactly where every character of the text is ASCII.
#[verifier::external_body]
fn is_ascii_text(name: &str) -> (ok: bool)
    ensures
        ok == is_ascii_chars(name@),
{
    AsciiString::from_str(name).is_ok()
}

/// Readies a name for a query: a name with a character outside ASCII is
/// refused, any other is given its closing separator where it has none.
pub fn normalize_name(name: &str) -> (r: Option<String>)
    ensures
        match r {
            Some(n) => is_ascii_chars(name@) && n@ == rooted_form(name@),
            None => !is_ascii_chars(name@),
        },
{
    if !is_ascii_text(name) {
        return None;
    }
    let b = name.as_bytes();
    proof {
        is_ascii_spec_bytes(name);
    }
    let n = b.len();
    let mut out = name.to_owned();
    if n == 0 || b[n - 1] != 46 {
        proof {
            reveal_strlit(".");
        }
        out.append(".");
        assert(out@ =~= name@.push('.'));
    } else {
        assert(name@.last() as u8 == 46);
    }
    Some(out)
}

} // verus!
