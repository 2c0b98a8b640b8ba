//! Derivation of rule-writer-facing event names: anomaly events carry names
//! in a fixed lowercase-with-underscores convention derived mechanically
//! from their variant names.

use vstd::prelude::*;

verus! {

use vstd::string::StringSliceAdditionalSpecFns;
use vstd::utf8::encode_utf8;

/// True when every byte of `s` is ASCII.
pub open spec fn bytes_are_ascii(s: Seq<u8>) -> bool {
    forall|i: int| 0 <= i < s.len() ==> (#[trigger] s[i]) < 128
}

/// The bytes a single name byte contributes: an uppercase letter is
/// lowercased and, except at the start, preceded by an underscore; any
/// other byte passes through.
pub open spec fn spec_transform_byte(b: u8, first: bool) -> Seq<u8> {
    if 65 <= b <= 90 {
        if first {
            seq![(b + 32) as u8]
        } else {
            seq![95u8, (b + 32) as u8]
        }
    } else {
        seq![b]
    }
}

/// The lowercase-with-underscores form of a variant name.
pub open spec fn spec_transform_name(s: Seq<u8>) -> Seq<u8>
    decreases s.len(),
{
    if s.len() == 0 {
        Seq::empty()
    } else {
        spec_transform_name(s.drop_last()) + spec_transform_byte(s.last(), s.len() == 1)
    }
}

/// Relies on String::from_utf8: for a vector of ASCII bytes it returns a
/// string holding exactly those bytes.
#[verifier::external_body]
pub(crate) fn string_from_ascii_bytes(v: Vec<u8>) -> (r: String)
    requires
        bytes_are_ascii(v@),
    ensures
        encode_utf8(r@) == v@,
{
    match String::from_utf8(v) {
        Ok(s) => s,
        Err(_) => String::new(),
    }
}

/// Derive the rule-writer-facing name of an event variant: each uppercase
/// letter is lowercased, and every one after the first character gains a
/// leading underscore.
pub fn transform_name(in_name: &str) -> (r: String)
    requires
        bytes_are_ascii(in_name.spec_bytes()),
    ensures
        encode_utf8(r@) == spec_transform_name(in_name.spec_bytes()),
{
    let s = in_name.as_bytes();
    let mut out: Vec<u8> = Vec::new();
    let mut i: usize = 0;
    while i < s.len()
        invariant
            0 <= i <= s@.len(),
            bytes_are_ascii(s@),
            out@ == spec_transform_name(s@.subrange(0, i as int)),
            bytes_are_ascii(out@),
        decreases s@.len() - i,
    {
        let b = s[i];
        if 65 <= b && b <= 90 {
            if i != 0 {
                out.push(95);
            }
            out.push(b + 32);
        } else {
            out.push(b);
        }
        proof {
            let pre = s@.subrange(0, i + 1 as int);
            assert(pre.drop_last() =~= s@.subrange(0, i as int));
            assert(out@ =~= spec_transform_name(pre.drop_last()) + spec_transform_byte(
                pre.last(),
                pre.len() == 1,
            ));
        }
        i = i + 1;
    }
    assert(s@.subrange(0, i as int) =~= s@);
    string_from_ascii_bytes(out)
}

} // verus!
