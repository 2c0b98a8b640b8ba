//! The fragmenting datagram RPC protocol: an 80-byte fixed header carrying
//! an in-band endianness flag, request/response fragments correlated by
//! sequence number and activity identifier, per-direction stub-data
//! reassembly buffers, and a bounded transaction table with forced
//! completion of the oldest straggler under table-size pressure.

use crate::applayer::{AppLayerResult, DetectEngineState};
use crate::ParseError;
use vstd::prelude::*;

verus! {

use vstd::slice::{slice_subrange, slice_to_vec};

/// Length of the fixed connectionless RPC header.
pub const DCERPC_UDP_HDR_LEN: i32 = 80;

/// Packet type of a request PDU.
pub const DCERPC_TYPE_REQUEST: u8 = 0;

/// Packet type of a response PDU.
pub const DCERPC_TYPE_RESPONSE: u8 = 2;

/// Flag bit: this PDU is a fragment of a larger message.
pub const PFCL1_FRAG: u8 = 0x04;

/// Flag bit: this PDU is the last fragment of its message.
pub const PFCL1_LASTFRAG: u8 = 0x02;

/// Open transactions beyond this count trigger the forced-completion
/// backpressure valve.
pub const DCERPC_MAX_TX: usize = 1024;

/// The decoded fixed header of a connectionless RPC PDU.
#[derive(Debug, Clone)]
pub struct DCERPCHdrUdp {
    pub rpc_vers: u8,
    pub pkt_type: u8,
    pub flags1: u8,
    pub flags2: u8,
    pub drep: Vec<u8>,
    pub serial_hi: u8,
    pub objectuuid: Vec<u8>,
    pub interfaceuuid: Vec<u8>,
    pub activityuuid: Vec<u8>,
    pub server_boot: u32,
    pub if_vers: u32,
    pub seqnum: u32,
    pub opnum: u16,
    pub ihint: u16,
    pub ahint: u16,
    pub fraglen: u16,
    pub fragnum: u16,
    pub auth_proto: u8,
    pub serial_lo: u8,
}

/// The mathematical image of a decoded header.
pub struct DCERPCHdrUdpView {
    pub rpc_vers: u8,
    pub pkt_type: u8,
    pub flags1: u8,
    pub flags2: u8,
    pub drep: Seq<u8>,
    pub serial_hi: u8,
    pub objectuuid: Seq<u8>,
    pub interfaceuuid: Seq<u8>,
    pub activityuuid: Seq<u8>,
    pub server_boot: u32,
    pub if_vers: u32,
    pub seqnum: u32,
    pub opnum: u16,
    pub ihint: u16,
    pub ahint: u16,
    pub fraglen: u16,
    pub fragnum: u16,
    pub auth_proto: u8,
    pub serial_lo: u8,
}

impl View for DCERPCHdrUdp {
    type V = DCERPCHdrUdpView;

    open spec fn view(&self) -> DCERPCHdrUdpView {
        DCERPCHdrUdpView {
            rpc_vers: self.rpc_vers,
            pkt_type: self.pkt_type,
            flags1: self.flags1,
            flags2: self.flags2,
            drep: self.drep@,
            serial_hi: self.serial_hi,
            objectuuid: self.objectuuid@,
            interfaceuuid: self.interfaceuuid@,
            activityuuid: self.activityuuid@,
            server_boot: self.server_boot,
            if_vers: self.if_vers,
            seqnum: self.seqnum,
            opnum: self.opnum,
            ihint: self.ihint,
            ahint: self.ahint,
            fraglen: self.fraglen,
            fragnum: self.fragnum,
            auth_proto: self.auth_proto,
            serial_lo: self.serial_lo,
        }
    }
}

/// The 16-bit value at offset `i`, read with the byte order the header's
/// data-representation flag selects.
pub open spec fn u16_at(s: Seq<u8>, i: int, le: bool) -> u16
    recommends
        0 <= i,
        i + 2 <= s.len(),
{
    if le {
        ((s[i] as int) + (s[i + 1] as int) * 0x100) as u16
    } else {
        ((s[i] as int) * 0x100 + (s[i + 1] as int)) as u16
    }
}

/// The 32-bit value at offset `i`, read with the byte order the header's
/// data-representation flag selects.
pub open spec fn u32_at(s: Seq<u8>, i: int, le: bool) -> u32
    recommends
        0 <= i,
        i + 4 <= s.len(),
{
    if le {
        ((s[i] as int) + (s[i + 1] as int) * 0x100 + (s[i + 2] as int) * 0x10000 + (s[i
            + 3] as int) * 0x1000000) as u32
    } else {
        ((s[i] as int) * 0x1000000 + (s[i + 1] as int) * 0x10000 + (s[i + 2] as int) * 0x100 + (s[i
            + 3] as int)) as u32
    }
}

fn read_u16(s: &[u8], i: usize, le: bool) -> (r: u16)
    requires
        i + 2 <= s@.len(),
    ensures
        r == u16_at(s@, i as int, le),
{
    if le {
        (s[i] as u16) + (s[i + 1] as u16) * 0x100
    } else {
        (s[i] as u16) * 0x100 + (s[i + 1] as u16)
    }
}

fn read_u32(s: &[u8], i: usize, le: bool) -> (r: u32)
    requires
        i + 4 <= s@.len(),
    ensures
        r == u32_at(s@, i as int, le),
{
    if le {
        (s[i] as u32) + (s[i + 1] as u32) * 0x100 + (s[i + 2] as u32) * 0x10000 + (s[i
            + 3] as u32) * 0x1000000
    } else {
        (s[i] as u32) * 0x1000000 + (s[i + 1] as u32) * 0x10000 + (s[i + 2] as u32) * 0x100 + (s[i
            + 3] as u32)
    }
}

/// Whether the data-representation byte selects little-endian integers.
pub open spec fn spec_hdr_is_le(s: Seq<u8>) -> bool
    recommends
        s.len() >= 5,
{
    s[4] & 0x10 != 0
}

/// The header decoded from the first 80 bytes of `s`: version, type and
/// flag bytes, the three data-representation bytes (whose first byte's
/// endianness bit governs every numeric field that follows), three 16-byte
/// identifiers, and the numeric tail.
pub open spec fn spec_parse_dcerpc_udp_header(s: Seq<u8>) -> Option<DCERPCHdrUdpView> {
    if s.len() < 80 {
        None
    } else {
        let le = spec_hdr_is_le(s);
        Some(
            DCERPCHdrUdpView {
                rpc_vers: s[0],
                pkt_type: s[1],
                flags1: s[2],
                flags2: s[3],
                drep: s.subrange(4, 7),
                serial_hi: s[7],
                objectuuid: s.subrange(8, 24),
                interfaceuuid: s.subrange(24, 40),
                activityuuid: s.subrange(40, 56),
                server_boot: u32_at(s, 56, le),
                if_vers: u32_at(s, 60, le),
                seqnum: u32_at(s, 64, le),
                opnum: u16_at(s, 68, le),
                ihint: u16_at(s, 70, le),
                ahint: u16_at(s, 72, le),
                fraglen: u16_at(s, 74, le),
                fragnum: u16_at(s, 76, le),
                auth_proto: s[78],
                serial_lo: s[79],
            },
        )
    }
}

/// Decode the 80-byte fixed header. For all spans shorter than the header
/// length the result is `Incomplete`, never `Malformed` and never a panic.
pub fn parse_dcerpc_udp_header<'a>(input: &'a [u8]) -> (r: Result<
    (&'a [u8], DCERPCHdrUdp),
    ParseError,
>)
    ensures
        match r {
            Ok(p) => {
                &&& spec_parse_dcerpc_udp_header(input@) == Some(p.1@)
                &&& p.0@ == input@.subrange(80, input@.len() as int)
            },
            Err(e) => {
                &&& spec_parse_dcerpc_udp_header(input@) is None
                &&& e == ParseError::Incomplete
            },
        },
{
    if input.len() < 80 {
        return Err(ParseError::Incomplete);
    }
    let le = input[4] & 0x10 != 0;
    let hdr = DCERPCHdrUdp {
        rpc_vers: input[0],
        pkt_type: input[1],
        flags1: input[2],
        flags2: input[3],
        drep: slice_to_vec(slice_subrange(input, 4, 7)),
        serial_hi: input[7],
        objectuuid: slice_to_vec(slice_subrange(input, 8, 24)),
        interfaceuuid: slice_to_vec(slice_subrange(input, 24, 40)),
        activityuuid: slice_to_vec(slice_subrange(input, 40, 56)),
        server_boot: read_u32(input, 56, le),
        if_vers: read_u32(input, 60, le),
        seqnum: read_u32(input, 64, le),
        opnum: read_u16(input, 68, le),
        ihint: read_u16(input, 70, le),
        ahint: read_u16(input, 72, le),
        fraglen: read_u16(input, 74, le),
        fragnum: read_u16(input, 76, le),
        auth_proto: input[78],
        serial_lo: input[79],
    };
    Ok((slice_subrange(input, 80, input.len()), hdr))
}

/// One request/response exchange: identity, correlation key fields,
/// per-direction completion flags, fragment counts and reassembly buffers,
/// and the detection-state slot.
#[derive(Debug)]
pub struct DCERPCTransaction {
    pub id: u64,
    pub endianness: u8,
    pub activityuuid: Vec<u8>,
    pub seqnum: u32,
    pub req_done: bool,
    pub resp_done: bool,
    pub frag_cnt_ts: u16,
    pub frag_cnt_tc: u16,
    pub stub_data_buffer_ts: Vec<u8>,
    pub stub_data_buffer_tc: Vec<u8>,
    pub de_state: Option<DetectEngineState>,
}

/// The mathematical image of a transaction.
#[verifier::ext_equal]
pub struct DCERPCTransactionView {
    pub id: u64,
    pub endianness: u8,
    pub activityuuid: Seq<u8>,
    pub seqnum: u32,
    pub req_done: bool,
    pub resp_done: bool,
    pub frag_cnt_ts: u16,
    pub frag_cnt_tc: u16,
    pub stub_data_buffer_ts: Seq<u8>,
    pub stub_data_buffer_tc: Seq<u8>,
    pub de_state: Option<DetectEngineState>,
}

impl View for DCERPCTransaction {
    type V = DCERPCTransactionView;

    open spec fn view(&self) -> DCERPCTransactionView {
        DCERPCTransactionView {
            id: self.id,
            endianness: self.endianness,
            activityuuid: self.activityuuid@,
            seqnum: self.seqnum,
            req_done: self.req_done,
            resp_done: self.resp_done,
            frag_cnt_ts: self.frag_cnt_ts,
            frag_cnt_tc: self.frag_cnt_tc,
            stub_data_buffer_ts: self.stub_data_buffer_ts@,
            stub_data_buffer_tc: self.stub_data_buffer_tc@,
            de_state: self.de_state,
        }
    }
}

impl DCERPCTransaction {
    /// A fresh transaction with empty buffers and nothing done.
    pub fn new() -> (r: DCERPCTransaction)
        ensures
            r@ == spec_empty_tx(),
    {
        DCERPCTransaction {
            id: 0,
            endianness: 0,
            activityuuid: Vec::new(),
            seqnum: 0,
            req_done: false,
            resp_done: false,
            frag_cnt_ts: 0,
            frag_cnt_tc: 0,
            stub_data_buffer_ts: Vec::new(),
            stub_data_buffer_tc: Vec::new(),
            de_state: None,
        }
    }


    /// The detection-state handle attached to the transaction, if any.
    pub fn get_detect_state(&self) -> (r: Option<DetectEngineState>)
        ensures
            r == self.de_state,
    {
        self.de_state
    }

    /// Attach a detection-state handle; the transaction owns it until it
    /// is freed.
    pub fn set_detect_state(&mut self, de_state: DetectEngineState)
        ensures
            final(self).de_state == Some(de_state),
            final(self).id == old(self).id,
            final(self)@ == (DCERPCTransactionView { de_state: Some(de_state), ..old(self)@ }),
    {
        self.de_state = Some(de_state);
        assert(self@ =~= (DCERPCTransactionView { de_state: Some(de_state), ..old(self)@ }));
    }

    /// Progress of one direction: nonzero once that direction is done.
    /// Progress never regresses: the done flags are only ever raised.
    pub fn get_alstate_progress(&self, direction: crate::Direction) -> (r: i32)
        ensures
            r == if (direction is ToServer && self.req_done) || (direction is ToClient
                && self.resp_done) {
                1int
            } else {
                0int
            },
    {
        match direction {
            crate::Direction::ToServer => if self.req_done {
                1
            } else {
                0
            },
            crate::Direction::ToClient => if self.resp_done {
                1
            } else {
                0
            },
        }
    }
}

/// The transaction `DCERPCTransaction::new` returns.
pub open spec fn spec_empty_tx() -> DCERPCTransactionView {
    DCERPCTransactionView {
        id: 0,
        endianness: 0,
        activityuuid: Seq::empty(),
        seqnum: 0,
        req_done: false,
        resp_done: false,
        frag_cnt_ts: 0,
        frag_cnt_tc: 0,
        stub_data_buffer_ts: Seq::empty(),
        stub_data_buffer_tc: Seq::empty(),
        de_state: None,
    }
}

/// The transaction a header opens: identity from the state's counter, the
/// correlation key copied from the header, and the endianness bit of the
/// first data-representation byte.
pub open spec fn spec_new_tx(tx_id: u64, hdr: DCERPCHdrUdpView) -> DCERPCTransactionView {
    DCERPCTransactionView {
        id: tx_id,
        endianness: (hdr.drep[0] & 0x10) as u8,
        activityuuid: hdr.activityuuid,
        seqnum: hdr.seqnum,
        ..spec_empty_tx()
    }
}

/// A transaction with both directions forcibly marked done.
pub open spec fn spec_force_done(tx: DCERPCTransactionView) -> DCERPCTransactionView {
    DCERPCTransactionView { req_done: true, resp_done: true, ..tx }
}

/// A transaction after one fragment of `data` arrived: the buffer of the
/// packet's direction grows by the fragment, the fragment count of that
/// direction rises by one (saturating), and the direction is marked done
/// when the fragment flags say no more parts follow.
pub open spec fn spec_append_frag(
    tx: DCERPCTransactionView,
    hdr: DCERPCHdrUdpView,
    data: Seq<u8>,
) -> DCERPCTransactionView {
    let done = (hdr.flags1 & PFCL1_FRAG) == 0 || (hdr.flags1 & PFCL1_LASTFRAG) != 0;
    if hdr.pkt_type == DCERPC_TYPE_REQUEST {
        DCERPCTransactionView {
            stub_data_buffer_ts: tx.stub_data_buffer_ts + data,
            frag_cnt_ts: if tx.frag_cnt_ts < 0xffff {
                (tx.frag_cnt_ts + 1) as u16
            } else {
                tx.frag_cnt_ts
            },
            req_done: tx.req_done || done,
            ..tx
        }
    } else {
        DCERPCTransactionView {
            stub_data_buffer_tc: tx.stub_data_buffer_tc + data,
            frag_cnt_tc: if tx.frag_cnt_tc < 0xffff {
                (tx.frag_cnt_tc + 1) as u16
            } else {
                tx.frag_cnt_tc
            },
            resp_done: tx.resp_done || done,
            ..tx
        }
    }
}

/// True of a transaction that can still accept a fragment from this header:
/// the correlation key matches and the packet's direction is not yet done.
/// Key reuse across time is legal; the done-flag filter resolves it.
pub open spec fn spec_tx_matches(tx: DCERPCTransactionView, hdr: DCERPCHdrUdpView) -> bool {
    &&& tx.seqnum == hdr.seqnum
    &&& tx.activityuuid == hdr.activityuuid
    &&& ((hdr.pkt_type == DCERPC_TYPE_REQUEST && !tx.req_done) || (hdr.pkt_type
        == DCERPC_TYPE_RESPONSE && !tx.resp_done))
}

/// The index of the first transaction at or after `from` that can accept a
/// fragment from this header, or the length when none can.
pub open spec fn spec_first_match(
    txs: Seq<DCERPCTransactionView>,
    hdr: DCERPCHdrUdpView,
    from: int,
) -> int
    decreases txs.len() - from,
{
    if from < 0 || from >= txs.len() {
        txs.len() as int
    } else if spec_tx_matches(txs[from], hdr) {
        from
    } else {
        spec_first_match(txs, hdr, from + 1)
    }
}

/// The index of the first transaction at or after `from` not yet fully
/// done, or the length when all are done.
pub open spec fn spec_first_incomplete(txs: Seq<DCERPCTransactionView>, from: int) -> int
    decreases txs.len() - from,
{
    if from < 0 || from >= txs.len() {
        txs.len() as int
    } else if !txs[from].req_done || !txs[from].resp_done {
        from
    } else {
        spec_first_incomplete(txs, from + 1)
    }
}

/// The first-incomplete scan stays within the table.
pub proof fn lemma_first_incomplete_bounds(txs: Seq<DCERPCTransactionView>, from: int)
    requires
        0 <= from <= txs.len(),
    ensures
        from <= spec_first_incomplete(txs, from) <= txs.len(),
    decreases txs.len() - from,
{
    if from < txs.len() && txs[from].req_done && txs[from].resp_done {
        lemma_first_incomplete_bounds(txs, from + 1);
    }
}

/// The transaction table and forward-scan cursor after the bounded-growth
/// valve ran: over the maximum, the first not-fully-done transaction at or
/// after the cursor is forcibly completed and the scan resumes after it
/// next time. This sacrifices the oldest straggler's completeness to bound
/// memory; it is backpressure, not an error.
pub open spec fn spec_evict(txs: Seq<DCERPCTransactionView>, cursor: int) -> (
    Seq<DCERPCTransactionView>,
    int,
) {
    if txs.len() > DCERPC_MAX_TX {
        let j = spec_first_incomplete(txs, cursor);
        if j < txs.len() {
            (txs.update(j, spec_force_done(txs[j])), j + 1)
        } else {
            (txs, txs.len() as int)
        }
    } else {
        (txs, cursor)
    }
}

/// One per-flow state of the fragmenting protocol: the next-identity
/// counter, the transaction table, and the resume cursor of the
/// forced-completion scan.
#[derive(Debug)]
pub struct DCERPCUDPState {
    pub tx_id: u64,
    pub transactions: Vec<DCERPCTransaction>,
    pub tx_index_completed: usize,
}

/// The mathematical image of a state.
#[verifier::ext_equal]
pub struct DCERPCUDPStateView {
    pub tx_id: u64,
    pub transactions: Seq<DCERPCTransactionView>,
    pub tx_index_completed: int,
}

impl View for DCERPCUDPState {
    type V = DCERPCUDPStateView;

    open spec fn view(&self) -> DCERPCUDPStateView {
        DCERPCUDPStateView {
            tx_id: self.tx_id,
            transactions: self.transactions@.map_values(|t: DCERPCTransaction| t@),
            tx_index_completed: self.tx_index_completed as int,
        }
    }
}

impl DCERPCUDPStateView {
    /// Well-formedness: the scan cursor stays within the table, identities
    /// rise strictly with table order, and every identity was assigned
    /// below the counter — so the counter never hands out an identity that
    /// is in use or ever was.
    pub open spec fn wf(self) -> bool {
        &&& 0 <= self.tx_index_completed <= self.transactions.len()
        &&& forall|i: int, j: int|
            0 <= i < j < self.transactions.len() ==> self.transactions[i].id
                < self.transactions[j].id
        &&& forall|i: int|
            0 <= i < self.transactions.len() ==> #[trigger] self.transactions[i].id < self.tx_id
    }
}

/// The state after `handle_fragment_data` accepted a header and fragment:
/// a transaction that can accept the fragment is extended in place;
/// otherwise the valve may run, and a fresh transaction holding the
/// fragment is appended under the next identity.
pub open spec fn spec_handle_fragment_data(
    sv: DCERPCUDPStateView,
    hdr: DCERPCHdrUdpView,
    data: Seq<u8>,
) -> DCERPCUDPStateView {
    let j = spec_first_match(sv.transactions, hdr, 0);
    if j < sv.transactions.len() {
        DCERPCUDPStateView {
            transactions: sv.transactions.update(j, spec_append_frag(sv.transactions[j], hdr, data)),
            ..sv
        }
    } else {
        let (evicted, cursor) = spec_evict(sv.transactions, sv.tx_index_completed);
        DCERPCUDPStateView {
            tx_id: (sv.tx_id + 1) as u64,
            transactions: evicted.push(spec_append_frag(spec_new_tx(sv.tx_id, hdr), hdr, data)),
            tx_index_completed: cursor,
        }
    }
}

impl DCERPCUDPState {
    /// A fresh state: no transactions, the identity counter at zero.
    pub fn new() -> (r: DCERPCUDPState)
        ensures
            r@.tx_id == 0,
            r@.transactions =~= Seq::<DCERPCTransactionView>::empty(),
            r@.tx_index_completed == 0,
            r@.wf(),
    {
        let r = DCERPCUDPState { tx_id: 0, tx_index_completed: 0, transactions: Vec::new() };
        proof {
            assert(r@.transactions =~= Seq::<DCERPCTransactionView>::empty());
        }
        r
    }

    /// Free the transaction with the given identity, if present; the scan
    /// cursor restarts from the front. The rest of the table keeps its
    /// order.
    pub fn free_tx(&mut self, tx_id: u64)
        requires
            old(self)@.wf(),
        ensures
            final(self)@.wf(),
            final(self)@.tx_id == old(self)@.tx_id,
            ({
                let txs = old(self)@.transactions;
                if exists|i: int| 0 <= i < txs.len() && (#[trigger] txs[i].id) == tx_id {
                    let j = choose|j: int| 0 <= j < txs.len() && (#[trigger] txs[j].id) == tx_id;
                    &&& final(self)@.transactions =~= txs.remove(j)
                    &&& final(self)@.tx_index_completed == 0
                } else {
                    final(self)@ == old(self)@
                }
            }),
    {
        let len = self.transactions.len();
        let mut found = false;
        let mut index: usize = 0;
        let mut i: usize = 0;
        while i < len
            invariant
                0 <= i <= len,
                len == self.transactions@.len(),
                !found ==> forall|k: int| 0 <= k < i ==> self@.transactions[k].id != tx_id,
                found ==> index < i && self@.transactions[index as int].id == tx_id,
            decreases len - i,
        {
            if !found && self.transactions[i].id == tx_id {
                found = true;
                index = i;
            }
            i = i + 1;
        }
        if found {
            self.tx_index_completed = 0;
            self.transactions.remove(index);
            proof {
                let txs = old(self)@.transactions;
                let j = choose|j: int| 0 <= j < txs.len() && (#[trigger] txs[j].id) == tx_id;
                assert(j == index) by {
                    if j != index {
                        if j < index {
                            assert(txs[j].id < txs[index as int].id);
                        } else {
                            assert(txs[index as int].id < txs[j].id);
                        }
                    }
                }
                assert(self@.transactions =~= txs.remove(index as int));
            }
        }
    }

    /// Look up a transaction by identity; agrees with every other access
    /// path because identities are unique in the table.
    pub fn get_tx(&self, tx_id: u64) -> (r: Option<&DCERPCTransaction>)
        ensures
            match r {
                Some(tx) => exists|i: int|
                    0 <= i < self@.transactions.len() && (#[trigger] self@.transactions[i]).id
                        == tx_id && tx@ == self@.transactions[i],
                None => forall|i: int|
                    0 <= i < self@.transactions.len() ==> (#[trigger] self@.transactions[i]).id
                        != tx_id,
            },
    {
        let mut i: usize = 0;
        while i < self.transactions.len()
            invariant
                0 <= i <= self@.transactions.len(),
                forall|k: int| 0 <= k < i ==> (#[trigger] self@.transactions[k]).id != tx_id,
            decreases self@.transactions.len() - i,
        {
            if self.transactions[i].id == tx_id {
                assert(self@.transactions[i as int].id == tx_id);
                return Some(&self.transactions[i]);
            }
            i = i + 1;
        }
        None
    }

    /// Find the first transaction that can still accept a fragment from
    /// this header: matching correlation key, direction not yet done.
    pub fn find_incomplete_tx(&self, hdr: &DCERPCHdrUdp) -> (r: Option<usize>)
        ensures
            ({
                let j = spec_first_match(self@.transactions, hdr@, 0);
                match r {
                    Some(i) => i == j && j < self@.transactions.len(),
                    None => j == self@.transactions.len(),
                }
            }),
    {
        let mut i: usize = 0;
        while i < self.transactions.len()
            invariant
                0 <= i <= self@.transactions.len(),
                spec_first_match(self@.transactions, hdr@, 0) == spec_first_match(
                    self@.transactions,
                    hdr@,
                    i as int,
                ),
            decreases self@.transactions.len() - i,
        {
            let tx = &self.transactions[i];
            if tx.seqnum == hdr.seqnum && crate::bytes_eq(&tx.activityuuid, &hdr.activityuuid) {
                if (hdr.pkt_type == DCERPC_TYPE_REQUEST && !tx.req_done) || (hdr.pkt_type
                    == DCERPC_TYPE_RESPONSE && !tx.resp_done) {
                    assert(spec_tx_matches(self@.transactions[i as int], hdr@));
                    return Some(i);
                }
            }
            assert(!spec_tx_matches(self@.transactions[i as int], hdr@));
            i = i + 1;
        }
        None
    }

    /// Open a transaction for this header under the next identity, running
    /// the bounded-growth valve first when the table is over its maximum.
    /// The returned transaction is not yet in the table.
    fn create_tx(&mut self, hdr: &DCERPCHdrUdp) -> (r: DCERPCTransaction)
        requires
            old(self)@.wf(),
            old(self)@.tx_id < u64::MAX,
            hdr@.drep.len() >= 1,
        ensures
            final(self)@.wf(),
            r@ == spec_new_tx(old(self)@.tx_id, hdr@),
            final(self)@.tx_id == old(self)@.tx_id + 1,
            ({
                let (evicted, cursor) = spec_evict(
                    old(self)@.transactions,
                    old(self)@.tx_index_completed,
                );
                final(self)@.transactions =~= evicted && final(self)@.tx_index_completed == cursor
            }),
    {
        let mut tx = DCERPCTransaction::new();
        tx.id = self.tx_id;
        tx.endianness = self.hdr_endianness(hdr);
        tx.activityuuid = slice_to_vec(hdr.activityuuid.as_slice());
        tx.seqnum = hdr.seqnum;
        self.tx_id = self.tx_id + 1;
        if self.transactions.len() > DCERPC_MAX_TX {
            let ghost txs0 = self@.transactions;
            let mut index: usize = self.tx_index_completed;
            let len = self.transactions.len();
            while index < len && self.transactions[index].req_done
                && self.transactions[index].resp_done
                invariant
                    old(self)@.tx_index_completed <= index <= len,
                    len == self@.transactions.len(),
                    self@.transactions =~= txs0,
                    spec_first_incomplete(txs0, old(self)@.tx_index_completed)
                        == spec_first_incomplete(txs0, index as int),
                decreases len - index,
            {
                index = index + 1;
            }
            assert(spec_first_incomplete(txs0, index as int) == index || index == len);
            if index < len {
                let mut old_tx = self.transactions.remove(index);
                old_tx.req_done = true;
                old_tx.resp_done = true;
                self.transactions.insert(index, old_tx);
                self.tx_index_completed = index + 1;
                proof {
                    assert(self@.transactions =~= txs0.update(
                        index as int,
                        spec_force_done(txs0[index as int]),
                    ));
                }
            } else {
                self.tx_index_completed = len;
            }
        }
        tx
    }

    /// Dispatch one fragment: requests and responses are appended to the
    /// first incomplete matching transaction, or to a freshly created one;
    /// any other packet type is refused with the state unchanged.
    pub fn handle_fragment_data(&mut self, hdr: &DCERPCHdrUdp, input: &[u8]) -> (r: bool)
        requires
            old(self)@.wf(),
            old(self)@.tx_id < u64::MAX,
            hdr@.drep.len() >= 1,
        ensures
            final(self)@.wf(),
            r == (hdr@.pkt_type == DCERPC_TYPE_REQUEST || hdr@.pkt_type == DCERPC_TYPE_RESPONSE),
            if r {
                final(self)@ == spec_handle_fragment_data(old(self)@, hdr@, input@)
            } else {
                final(self)@ == old(self)@
            },
    {
        if hdr.pkt_type != DCERPC_TYPE_REQUEST && hdr.pkt_type != DCERPC_TYPE_RESPONSE {
            return false;
        }
        let ghost sv0 = self@;
        let found = self.find_incomplete_tx(hdr);
        match found {
            Some(j) => {
                let mut tx = self.transactions.remove(j);
                self.append_frag_to(&mut tx, hdr, input);
                self.transactions.insert(j, tx);
                proof {
                    assert(self@.transactions =~= sv0.transactions.update(
                        j as int,
                        spec_append_frag(sv0.transactions[j as int], hdr@, input@),
                    ));
                    assert(self@ =~= spec_handle_fragment_data(sv0, hdr@, input@));
                    assert forall|k: int| 0 <= k < self@.transactions.len() implies (
                    #[trigger] self@.transactions[k]).id == sv0.transactions[k].id by {}
                    assert(self@.wf());
                }
            },
            None => {
                let mut tx = self.create_tx(hdr);
                self.append_frag_to(&mut tx, hdr, input);
                self.transactions.push(tx);
                proof {
                    let (evicted, cursor) = spec_evict(sv0.transactions, sv0.tx_index_completed);
                    assert(self@.transactions =~= evicted.push(
                        spec_append_frag(spec_new_tx(sv0.tx_id, hdr@), hdr@, input@),
                    ));
                    assert(self@ =~= spec_handle_fragment_data(sv0, hdr@, input@));
                    if sv0.transactions.len() > DCERPC_MAX_TX {
                        lemma_first_incomplete_bounds(sv0.transactions, sv0.tx_index_completed);
                    }
                    assert(evicted.len() == sv0.transactions.len());
                    let newtxs = self@.transactions;
                    assert forall|k: int| 0 <= k < newtxs.len() - 1 implies (
                    #[trigger] newtxs[k]).id == sv0.transactions[k].id by {
                        assert(newtxs[k] == evicted[k]);
                    }
                    assert(newtxs[newtxs.len() - 1].id == sv0.tx_id);
                    assert(self@.tx_id == sv0.tx_id + 1);
                    assert forall|i: int, j: int|
                        0 <= i < j < newtxs.len() implies newtxs[i].id < newtxs[j].id by {
                        assert(newtxs[i].id == sv0.transactions[i].id);
                        if j < newtxs.len() - 1 {
                            assert(newtxs[j].id == sv0.transactions[j].id);
                            assert(sv0.transactions[i].id < sv0.transactions[j].id);
                        } else {
                            assert(sv0.transactions[i].id < sv0.tx_id);
                        }
                    }
                    assert forall|i: int| 0 <= i < newtxs.len() implies (
                    #[trigger] newtxs[i]).id < self@.tx_id by {
                        if i < newtxs.len() - 1 {
                            assert(newtxs[i].id == sv0.transactions[i].id);
                            assert(sv0.transactions[i].id < sv0.tx_id);
                        }
                    }
                    assert(self@.wf());
                }
            },
        }
        true
    }

    /// The number of identities handed out so far.
    pub fn get_tx_cnt(&self) -> (r: u64)
        ensures
            r == self@.tx_id,
    {
        self.tx_id
    }

    /// Extract the endianness bit of the first data-representation byte.
    fn hdr_endianness(&self, hdr: &DCERPCHdrUdp) -> (r: u8)
        requires
            hdr@.drep.len() >= 1,
        ensures
            r == (hdr@.drep[0] & 0x10) as u8,
    {
        hdr.drep[0] & 0x10
    }

    /// Append one fragment to a transaction not currently in the table.
    fn append_frag_to(&self, tx: &mut DCERPCTransaction, hdr: &DCERPCHdrUdp, input: &[u8])
        requires
            hdr@.pkt_type == DCERPC_TYPE_REQUEST || hdr@.pkt_type == DCERPC_TYPE_RESPONSE,
        ensures
            final(tx)@ == spec_append_frag(old(tx)@, hdr@, input@),
    {
        let done = (hdr.flags1 & PFCL1_FRAG) == 0 || (hdr.flags1 & PFCL1_LASTFRAG) != 0;
        if hdr.pkt_type == DCERPC_TYPE_REQUEST {
            tx.stub_data_buffer_ts.extend_from_slice(input);
            if tx.frag_cnt_ts < 0xffff {
                tx.frag_cnt_ts = tx.frag_cnt_ts + 1;
            }
            if done {
                tx.req_done = true;
            }
            assert(tx.stub_data_buffer_ts@ =~= old(tx)@.stub_data_buffer_ts + input@);
        } else {
            tx.stub_data_buffer_tc.extend_from_slice(input);
            if tx.frag_cnt_tc < 0xffff {
                tx.frag_cnt_tc = tx.frag_cnt_tc + 1;
            }
            if done {
                tx.resp_done = true;
            }
            assert(tx.stub_data_buffer_tc@ =~= old(tx)@.stub_data_buffer_tc + input@);
        }
        assert(tx@ =~= spec_append_frag(old(tx)@, hdr@, input@));
    }

    /// Consume one datagram: decode the fixed header, check the protocol
    /// version and that the declared fragment length does not exceed the
    /// bytes present, then dispatch the fragment. Every failure leaves the
    /// state unchanged and returns the error result; the caller treats it
    /// as "insufficient or malformed input for this call", not as fatal.
    pub fn handle_input_data(&mut self, input: &[u8]) -> (r: AppLayerResult)
        requires
            old(self)@.wf(),
            old(self)@.tx_id < u64::MAX,
        ensures
            final(self)@.wf(),
            ({
                match spec_parse_dcerpc_udp_header(input@) {
                    Some(hdr) => {
                        if hdr.rpc_vers != 4 || input@.len() - 80 < hdr.fraglen || !(hdr.pkt_type
                            == DCERPC_TYPE_REQUEST || hdr.pkt_type == DCERPC_TYPE_RESPONSE) {
                            r.status == -1 && final(self)@ == old(self)@
                        } else {
                            r.status == 0 && final(self)@ == spec_handle_fragment_data(
                                old(self)@,
                                hdr,
                                input@.subrange(80, 80 + hdr.fraglen as int),
                            )
                        }
                    },
                    None => r.status == -1 && final(self)@ == old(self)@,
                }
            }),
    {
        let (leftover, header) = match parse_dcerpc_udp_header(input) {
            Ok(p) => p,
            Err(_) => {
                return AppLayerResult::err();
            },
        };
        if header.rpc_vers != 4 {
            return AppLayerResult::err();
        }
        if leftover.len() < header.fraglen as usize {
            return AppLayerResult::err();
        }
        let frag = slice_subrange(leftover, 0, header.fraglen as usize);
        assert(frag@ =~= input@.subrange(80, 80 + header@.fraglen as int));
        if !self.handle_fragment_data(&header, frag) {
            return AppLayerResult::err();
        }
        AppLayerResult::ok()
    }
}

/// Transaction identity is strictly increasing within a state and never
/// reused: in a well-formed state every identity in the table is below
/// the counter, so the identity the next fragment may open a transaction
/// under is above every identity that is in use or ever was.
pub proof fn lemma_tx_id_never_reused(sv: DCERPCUDPStateView)
    requires
        sv.wf(),
        sv.tx_id < u64::MAX,
    ensures
        forall|i: int|
            0 <= i < sv.transactions.len() ==> #[trigger] sv.transactions[i].id < sv.tx_id,
{
}

/// The fragment-match scan stays within the table, what it finds can
/// accept the fragment, and everything it skipped cannot.
pub proof fn lemma_first_match_props(
    txs: Seq<DCERPCTransactionView>,
    hdr: DCERPCHdrUdpView,
    from: int,
)
    requires
        0 <= from <= txs.len(),
    ensures
        from <= spec_first_match(txs, hdr, from) <= txs.len(),
        spec_first_match(txs, hdr, from) < txs.len() ==> spec_tx_matches(
            txs[spec_first_match(txs, hdr, from)],
            hdr,
        ),
        forall|k: int|
            from <= k < spec_first_match(txs, hdr, from) ==> !spec_tx_matches(
                #[trigger] txs[k],
                hdr,
            ),
    decreases txs.len() - from,
{
    if from < txs.len() && !spec_tx_matches(txs[from], hdr) {
        lemma_first_match_props(txs, hdr, from + 1);
    }
}

/// The fragment-match scan finds exactly the first matching index.
proof fn lemma_first_match_at(
    txs: Seq<DCERPCTransactionView>,
    hdr: DCERPCHdrUdpView,
    from: int,
    w: int,
)
    requires
        0 <= from <= w < txs.len(),
        forall|k: int| from <= k < w ==> !spec_tx_matches(#[trigger] txs[k], hdr),
        spec_tx_matches(txs[w], hdr),
    ensures
        spec_first_match(txs, hdr, from) == w,
    decreases w - from,
{
    if from < w {
        lemma_first_match_at(txs, hdr, from + 1, w);
    }
}

/// Three fragments of one request sharing a correlation key reassemble
/// into exactly one transaction: the first fragment opens it under the
/// next identity, the following two land in it, the request side stays
/// open until the last-fragment marker and then closes, and the
/// accumulated payload is the concatenation of the three fragment
/// payloads — so its length is the sum of the fragment payload lengths.
pub proof fn lemma_fragment_reassembly(
    sv0: DCERPCUDPStateView,
    hdr1: DCERPCHdrUdpView,
    hdr2: DCERPCHdrUdpView,
    hdr3: DCERPCHdrUdpView,
    i1: Seq<u8>,
    i2: Seq<u8>,
    i3: Seq<u8>,
)
    requires
        sv0.wf(),
        sv0.tx_id < u64::MAX,
        hdr1.pkt_type == DCERPC_TYPE_REQUEST,
        hdr2.pkt_type == DCERPC_TYPE_REQUEST,
        hdr3.pkt_type == DCERPC_TYPE_REQUEST,
        hdr2.seqnum == hdr1.seqnum && hdr2.activityuuid == hdr1.activityuuid,
        hdr3.seqnum == hdr1.seqnum && hdr3.activityuuid == hdr1.activityuuid,
        hdr1.flags1 & PFCL1_FRAG != 0 && hdr1.flags1 & PFCL1_LASTFRAG == 0,
        hdr2.flags1 & PFCL1_FRAG != 0 && hdr2.flags1 & PFCL1_LASTFRAG == 0,
        hdr3.flags1 & PFCL1_LASTFRAG != 0,
        forall|k: int|
            0 <= k < sv0.transactions.len() ==> !spec_tx_matches(
                #[trigger] sv0.transactions[k],
                hdr1,
            ),
    ensures
        ({
            let sv1 = spec_handle_fragment_data(sv0, hdr1, i1);
            let sv2 = spec_handle_fragment_data(sv1, hdr2, i2);
            let sv3 = spec_handle_fragment_data(sv2, hdr3, i3);
            let t = sv3.transactions.last();
            &&& sv3.transactions.len() == sv0.transactions.len() + 1
            &&& sv3.tx_id == sv0.tx_id + 1
            &&& !sv1.transactions.last().req_done
            &&& !sv2.transactions.last().req_done
            &&& t.req_done
            &&& t.frag_cnt_ts == 3
            &&& t.stub_data_buffer_ts == i1 + i2 + i3
            &&& t.stub_data_buffer_ts.len() == i1.len() + i2.len() + i3.len()
        }),
{
    let n = sv0.transactions.len() as int;
    // first fragment: no transaction can accept it, so one is created
    lemma_first_match_props(sv0.transactions, hdr1, 0);
    assert(spec_first_match(sv0.transactions, hdr1, 0) == n);
    let (evicted, cursor) = spec_evict(sv0.transactions, sv0.tx_index_completed);
    if sv0.transactions.len() > DCERPC_MAX_TX {
        lemma_first_incomplete_bounds(sv0.transactions, sv0.tx_index_completed);
    }
    assert(evicted.len() == n);
    let t1 = spec_append_frag(spec_new_tx(sv0.tx_id, hdr1), hdr1, i1);
    let sv1 = spec_handle_fragment_data(sv0, hdr1, i1);
    assert(sv1.transactions =~= evicted.push(t1));
    assert(t1.stub_data_buffer_ts =~= i1);
    assert(!t1.req_done);
    // a forcibly completed transaction can accept no more fragments, so
    // nothing before the fresh transaction matches the second header
    assert forall|k: int| 0 <= k < n implies !spec_tx_matches(
        #[trigger] sv1.transactions[k],
        hdr2,
    ) by {
        assert(!spec_tx_matches(sv0.transactions[k], hdr1));
        if sv0.transactions.len() > DCERPC_MAX_TX {
            let j = spec_first_incomplete(sv0.transactions, sv0.tx_index_completed);
            if j < n {
                assert(evicted[k] == if k == j {
                    spec_force_done(sv0.transactions[k])
                } else {
                    sv0.transactions[k]
                });
            }
        }
    }
    assert(spec_tx_matches(t1, hdr2));
    lemma_first_match_at(sv1.transactions, hdr2, 0, n);
    // second fragment lands in the fresh transaction
    let t2 = spec_append_frag(t1, hdr2, i2);
    let sv2 = spec_handle_fragment_data(sv1, hdr2, i2);
    assert(sv2.transactions =~= sv1.transactions.update(n, t2));
    assert(t2.stub_data_buffer_ts =~= i1 + i2);
    assert(!t2.req_done);
    // so does the third, and its last-fragment marker closes the request
    assert forall|k: int| 0 <= k < n implies !spec_tx_matches(
        #[trigger] sv2.transactions[k],
        hdr3,
    ) by {
        assert(sv2.transactions[k] == sv1.transactions[k]);
    }
    assert(spec_tx_matches(t2, hdr3));
    lemma_first_match_at(sv2.transactions, hdr3, 0, n);
    let t3 = spec_append_frag(t2, hdr3, i3);
    let sv3 = spec_handle_fragment_data(sv2, hdr3, i3);
    assert(sv3.transactions =~= sv2.transactions.update(n, t3));
    assert(t3.stub_data_buffer_ts =~= i1 + i2 + i3);
    assert(t3.req_done);
    assert(sv1.transactions.last() == t1);
    assert(sv2.transactions.last() == t2);
    assert(sv3.transactions.last() == t3);
}

/// A transaction with an open direction still counts against the table
/// bound.
pub open spec fn spec_tx_open(t: DCERPCTransactionView) -> bool {
    !t.req_done || !t.resp_done
}

/// How many transactions of the table still have an open direction.
pub open spec fn spec_open_count(txs: Seq<DCERPCTransactionView>) -> int
    decreases txs.len(),
{
    if txs.len() == 0 {
        0
    } else {
        spec_open_count(txs.drop_last()) + if spec_tx_open(txs.last()) {
            1int
        } else {
            0int
        }
    }
}

/// Replacing one transaction changes the open count by the difference of
/// the two entries' openness.
proof fn lemma_open_count_update(txs: Seq<DCERPCTransactionView>, j: int, t: DCERPCTransactionView)
    requires
        0 <= j < txs.len(),
    ensures
        spec_open_count(txs.update(j, t)) == spec_open_count(txs) - (if spec_tx_open(txs[j]) {
            1int
        } else {
            0int
        }) + (if spec_tx_open(t) {
            1int
        } else {
            0int
        }),
    decreases txs.len(),
{
    let upd = txs.update(j, t);
    if j == txs.len() - 1 {
        assert(upd.drop_last() =~= txs.drop_last());
        assert(upd.last() == t);
    } else {
        assert(upd.drop_last() =~= txs.drop_last().update(j, t));
        assert(upd.last() == txs.last());
        lemma_open_count_update(txs.drop_last(), j, t);
    }
}

/// Appending a transaction raises the open count by its openness.
proof fn lemma_open_count_push(txs: Seq<DCERPCTransactionView>, t: DCERPCTransactionView)
    ensures
        spec_open_count(txs.push(t)) == spec_open_count(txs) + (if spec_tx_open(t) {
            1int
        } else {
            0int
        }),
{
    assert(txs.push(t).drop_last() =~= txs);
    assert(txs.push(t).last() == t);
}

/// A table whose transactions are all fully done has open count zero.
proof fn lemma_open_count_zero(txs: Seq<DCERPCTransactionView>)
    requires
        forall|k: int| 0 <= k < txs.len() ==> !spec_tx_open(#[trigger] txs[k]),
    ensures
        spec_open_count(txs) == 0,
    decreases txs.len(),
{
    if txs.len() > 0 {
        assert(forall|k: int|
            0 <= k < txs.drop_last().len() ==> #[trigger] txs.drop_last()[k] == txs[k]);
        lemma_open_count_zero(txs.drop_last());
    }
}

/// The first-incomplete scan stays within the table, skips only fully
/// done transactions, and what it finds has an open direction.
pub proof fn lemma_first_incomplete_props(txs: Seq<DCERPCTransactionView>, from: int)
    requires
        0 <= from <= txs.len(),
    ensures
        from <= spec_first_incomplete(txs, from) <= txs.len(),
        spec_first_incomplete(txs, from) < txs.len() ==> spec_tx_open(
            txs[spec_first_incomplete(txs, from)],
        ),
        forall|k: int|
            from <= k < spec_first_incomplete(txs, from) ==> !spec_tx_open(#[trigger] txs[k]),
    decreases txs.len() - from,
{
    if from < txs.len() && txs[from].req_done && txs[from].resp_done {
        lemma_first_incomplete_props(txs, from + 1);
    }
}

/// Bounded growth: when a fresh exchange arrives while the table is over
/// its maximum, the valve forcibly completes the first straggler at or
/// after the resume cursor — removing nothing — so the number of
/// transactions with an open direction never exceeds the maximum plus
/// one, and the scan resumes after the straggler next time. The cursor
/// invariant (everything behind it fully done) is kept.
pub proof fn lemma_bounded_growth(sv: DCERPCUDPStateView, hdr: DCERPCHdrUdpView, data: Seq<u8>)
    requires
        sv.wf(),
        sv.tx_id < u64::MAX,
        hdr.pkt_type == DCERPC_TYPE_REQUEST || hdr.pkt_type == DCERPC_TYPE_RESPONSE,
        forall|k: int|
            0 <= k < sv.transactions.len() ==> !spec_tx_matches(#[trigger] sv.transactions[k], hdr),
        sv.transactions.len() > DCERPC_MAX_TX,
        forall|i: int|
            0 <= i < sv.tx_index_completed ==> !spec_tx_open(#[trigger] sv.transactions[i]),
        spec_open_count(sv.transactions) <= DCERPC_MAX_TX + 1,
    ensures
        ({
            let sv2 = spec_handle_fragment_data(sv, hdr, data);
            let j = spec_first_incomplete(sv.transactions, sv.tx_index_completed);
            &&& sv2.transactions.len() == sv.transactions.len() + 1
            &&& spec_open_count(sv2.transactions) <= DCERPC_MAX_TX + 1
            &&& (j < sv.transactions.len() ==> sv2.transactions[j] == spec_force_done(
                sv.transactions[j],
            ) && sv2.tx_index_completed == j + 1)
            &&& forall|i: int|
                0 <= i < sv2.tx_index_completed ==> !spec_tx_open(#[trigger] sv2.transactions[i])
        }),
{
    let n = sv.transactions.len() as int;
    lemma_first_match_props(sv.transactions, hdr, 0);
    assert(spec_first_match(sv.transactions, hdr, 0) == n);
    let (evicted, cursor) = spec_evict(sv.transactions, sv.tx_index_completed);
    let j = spec_first_incomplete(sv.transactions, sv.tx_index_completed);
    lemma_first_incomplete_props(sv.transactions, sv.tx_index_completed);
    let t = spec_append_frag(spec_new_tx(sv.tx_id, hdr), hdr, data);
    let sv2 = spec_handle_fragment_data(sv, hdr, data);
    assert(sv2.transactions =~= evicted.push(t));
    if j < n {
        lemma_open_count_update(sv.transactions, j, spec_force_done(sv.transactions[j]));
        assert(spec_open_count(evicted) == spec_open_count(sv.transactions) - 1);
        lemma_open_count_push(evicted, t);
        assert forall|i: int| 0 <= i < sv2.tx_index_completed implies !spec_tx_open(
            #[trigger] sv2.transactions[i],
        ) by {
            assert(sv2.transactions[i] == evicted[i]);
            if i < sv.tx_index_completed {
                assert(!spec_tx_open(sv.transactions[i]));
            } else if i < j {
                assert(!spec_tx_open(sv.transactions[i]));
            }
        }
    } else {
        assert(evicted == sv.transactions);
        assert forall|k: int| 0 <= k < n implies !spec_tx_open(
            #[trigger] sv.transactions[k],
        ) by {
            if k >= sv.tx_index_completed {
                assert(!spec_tx_open(sv.transactions[k]));
            }
        }
        lemma_open_count_zero(sv.transactions);
        lemma_open_count_push(evicted, t);
        assert forall|i: int| 0 <= i < sv2.tx_index_completed implies !spec_tx_open(
            #[trigger] sv2.transactions[i],
        ) by {
            assert(sv2.transactions[i] == sv.transactions[i]);
        }
    }
}

/// Probe a datagram: decoded header fields must show protocol version 4,
/// reserved flag bits clear, a sane data representation — and the packet
/// type tells the probable direction.
pub fn probe(input: &[u8]) -> (r: (bool, bool))
    ensures
        match spec_parse_dcerpc_udp_header(input@) {
            Some(hdr) => {
                &&& r.0 == (hdr.rpc_vers == 4 && (hdr.flags2 & 0xfc) == 0 && (hdr.drep[0] & 0xee)
                    == 0 && hdr.drep[1] <= 3)
                &&& r.1 == (hdr.pkt_type == 0)
            },
            None => r == (false, false),
        },
{
    match parse_dcerpc_udp_header(input) {
        Ok((_, hdr)) => {
            let is_request = hdr.pkt_type == 0;
            let is_dcerpc = hdr.rpc_vers == 4 && (hdr.flags2 & 0xfc) == 0 && (hdr.drep[0] & 0xee)
                == 0 && hdr.drep[1] <= 3;
            (is_dcerpc, is_request)
        },
        Err(_) => (false, false),
    }
}

} // verus!
