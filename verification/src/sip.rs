//! The session-initiation protocol's detection accessor: a transaction
//! carries an optional decoded request, and the detection engine reads
//! the request method from it.

use vstd::prelude::*;

verus! {

/// A decoded request: the method name the client sent.
#[derive(Debug, Clone, PartialEq, Eq)]
pub struct SIPRequest {
    pub method: Vec<u8>,
}

/// One request/response exchange of the protocol, as far as the
/// detection accessor needs it.
#[derive(Debug, Clone, PartialEq, Eq)]
pub struct SIPTransaction {
    pub id: u64,
    pub request: Option<SIPRequest>,
}

/// Expose the request method of a transaction to the detection engine:
/// the method bytes when a request is present and its method is
/// non-empty, and nothing otherwise.
pub fn tx_get_method(tx: &SIPTransaction) -> (r: Option<&Vec<u8>>)
    ensures
        match r {
            Some(m) => {
                &&& tx.request matches Some(q)
                &&& m@ == q.method@
                &&& m@.len() > 0
            },
            None => match tx.request {
                Some(q) => q.method@.len() == 0,
                None => true,
            },
        },
{
    match &tx.request {
        Some(q) => {
            if q.method.len() > 0 {
                Some(&q.method)
            } else {
                None
            }
        },
        None => None,
    }
}

} // verus!
