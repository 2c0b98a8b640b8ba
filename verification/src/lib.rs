//! A deep-packet-inspection protocol parsing core: per-protocol state
//! machines that consume byte spans, incrementally decode application-layer
//! messages, correlate requests with responses into transactions, and expose
//! a queryable transaction history plus anomaly events to a detection engine.

pub mod applayer;
pub mod bittorrent;
pub mod dcerpc;
pub mod detect;
pub mod events;
pub mod sip;
pub mod smb1;
pub mod ssh;
pub mod windows;

use vstd::prelude::*;

verus! {

/// Direction of a record relative to the monitored flow.
#[derive(Clone, Copy, Debug, PartialEq, Eq, Structural)]
pub enum Direction {
    ToServer,
    ToClient,
}

/// Why a decoder could not produce a structure: `Incomplete` means more
/// bytes are needed before a decision can be made and is never an anomaly;
/// `Malformed` means the bytes violate the grammar.
#[derive(Clone, Copy, Debug, PartialEq, Eq, Structural)]
pub enum ParseError {
    Incomplete,
    Malformed,
}

/// Byte-for-byte equality of two byte vectors.
pub fn bytes_eq(a: &Vec<u8>, b: &Vec<u8>) -> (r: bool)
    ensures
        r == (a@ == b@),
{
    if a.len() != b.len() {
        return false;
    }
    let mut i: usize = 0;
    while i < a.len()
        invariant
            0 <= i <= a@.len(),
            a@.len() == b@.len(),
            forall|k: int| 0 <= k < i ==> a@[k] == b@[k],
        decreases a@.len() - i,
    {
        if a[i] != b[i] {
            return false;
        }
        i = i + 1;
    }
    assert(a@ =~= b@);
    true
}

/// An owned copy of a byte vector.
pub fn clone_bytes(v: &Vec<u8>) -> (r: Vec<u8>)
    ensures
        r@ == v@,
{
    vstd::slice::slice_to_vec(v.as_slice())
}

} // verus!
