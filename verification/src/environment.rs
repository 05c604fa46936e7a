//! Legacy spellings of the compositor's environment variables.

use vstd::prelude::*;
use vstd::utf8::{decode_utf8, encode_utf8, valid_utf8};
use crate::text::{str_chars, string_from_chars, utf8_string};

verus! {

broadcast use vstd::utf8::encode_utf8_decode_utf8;

/// The legacy name of a variable: `DENIAL_X` is also read as `DENIA_X`;
/// names that are not UTF-8 or lack the prefix have none.
pub open spec fn spec_legacy_alias(name: Seq<u8>) -> Option<Seq<char>> {
    if !valid_utf8(name) {
        None
    } else {
        let text = decode_utf8(name);
        let prefix = "DENIAL_"@;
        if text.len() >= prefix.len() && text.take(prefix.len() as int) == prefix {
            Some("DENIA_"@ + text.skip(prefix.len() as int))
        } else {
            None
        }
    }
}

pub fn legacy_alias(name: &[u8]) -> (r: Option<String>)
    ensures
        match spec_legacy_alias(name@) {
            Some(a) => r matches Some(s) && s@ == a,
            None => r is None,
        },
{
    let text = match utf8_string(name) {
        Some(t) => t,
        None => return None,
    };
    proof {
        assert(decode_utf8(encode_utf8(text@)) == text@);
    }
    let chars = str_chars(text.as_str());
    let prefix = str_chars("DENIAL_");
    assert(chars@ == decode_utf8(name@));
    if chars.len() < prefix.len() {
        return None;
    }
    let mut i: usize = 0;
    while i < prefix.len()
        invariant
            i <= prefix@.len() <= chars@.len(),
            prefix@ == "DENIAL_"@,
            valid_utf8(name@),
            chars@ == decode_utf8(name@),
            forall|k: int| 0 <= k < i ==> chars@[k] == prefix@[k],
        decreases prefix@.len() - i,
    {
        if chars[i] != prefix[i] {
            assert(chars@.take(prefix@.len() as int)[i as int] != prefix@[i as int]);
            return None;
        }
        i += 1;
    }
    assert(chars@.take(prefix@.len() as int) =~= prefix@);
    let mut out = str_chars("DENIA_");
    let mut k: usize = prefix.len();
    let ghost head = out@;
    while k < chars.len()
        invariant
            prefix@.len() <= k <= chars@.len(),
            out@ == head + chars@.subrange(prefix@.len() as int, k as int),
        decreases chars@.len() - k,
    {
        out.push(chars[k]);
        proof {
            assert(chars@.subrange(prefix@.len() as int, k + 1) =~= chars@.subrange(
                prefix@.len() as int,
                k as int,
            ).push(chars@[k as int]));
        }
        k += 1;
    }
    assert(chars@.subrange(prefix@.len() as int, chars@.len() as int) =~= chars@.skip(
        prefix@.len() as int,
    ));
    Some(string_from_chars(out.as_slice()))
}

} // verus!
