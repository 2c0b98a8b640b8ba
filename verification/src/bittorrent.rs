//! The datagram distributed-hash-table protocol: a cheap payload-prefix
//! probe, one transaction per received packet, a malformed-packet anomaly
//! event, and the identity-keyed lookup and iteration the host engine
//! drives.

use crate::applayer::{AppLayerEventType, DetectEngineState};
use vstd::prelude::*;

verus! {

use vstd::string::StringSliceAdditionalSpecFns;

/// The payload prefix (`d1:ad2:id20:`) every request of the protocol
/// starts with: a dictionary whose first key announces a 20-byte node
/// identifier.
pub open spec fn spec_dht_prefix() -> Seq<u8> {
    seq![100u8, 49u8, 58u8, 97u8, 100u8, 50u8, 58u8, 105u8, 100u8, 50u8, 48u8, 58u8]
}

/// What decoding a packet yields: the 20-byte node identifier following
/// the prefix, or nothing when the prefix is absent or the identifier is
/// truncated.
pub open spec fn spec_dht_decode(s: Seq<u8>) -> Option<Seq<u8>> {
    if s.len() >= 32 && s.subrange(0, 12) == spec_dht_prefix() {
        Some(s.subrange(12, 32))
    } else {
        None
    }
}

/// Anomaly events of this protocol.
#[derive(Clone, Copy, Debug, PartialEq, Eq, Structural)]
pub enum BitTorrentDHTEvent {
    MalformedPacket,
}

/// The lowercase form of an ASCII byte; other bytes pass through.
pub open spec fn spec_lower_byte(b: u8) -> u8 {
    if 65 <= b <= 90 {
        (b + 32) as u8
    } else {
        b
    }
}

/// The byte sequence lowercased.
pub open spec fn spec_lower_bytes(s: Seq<u8>) -> Seq<u8> {
    s.map_values(|b: u8| spec_lower_byte(b))
}

/// The rule-writer-facing name of the malformed-packet event
/// (`malformed_packet`).
pub open spec fn spec_malformed_packet_name() -> Seq<u8> {
    seq![
        109u8,
        97u8,
        108u8,
        102u8,
        111u8,
        114u8,
        109u8,
        101u8,
        100u8,
        95u8,
        112u8,
        97u8,
        99u8,
        107u8,
        101u8,
        116u8,
    ]
}

/// The event a name denotes, compared after lowercasing.
pub open spec fn spec_event_from_name(s: Seq<u8>) -> Option<BitTorrentDHTEvent> {
    if spec_lower_bytes(s) == spec_malformed_packet_name() {
        Some(BitTorrentDHTEvent::MalformedPacket)
    } else {
        None
    }
}

/// The integer id of an event.
pub open spec fn spec_event_id(e: BitTorrentDHTEvent) -> u32 {
    match e {
        BitTorrentDHTEvent::MalformedPacket => 0,
    }
}

impl BitTorrentDHTEvent {
    /// The C-style name of the event, NUL terminator included.
    pub fn to_cstring(&self) -> (r: &'static str)
        ensures
            r@ == "MALFORMED_PACKET\0"@,
    {
        match *self {
            BitTorrentDHTEvent::MalformedPacket => "MALFORMED_PACKET\0",
        }
    }

    /// The event an integer id denotes, if any.
    pub fn from_id(id: u32) -> (r: Option<BitTorrentDHTEvent>)
        ensures
            r == if id == 0 {
                Some(BitTorrentDHTEvent::MalformedPacket)
            } else {
                None::<BitTorrentDHTEvent>
            },
    {
        match id {
            0 => Some(BitTorrentDHTEvent::MalformedPacket),
            _ => None,
        }
    }

    /// The event a rule-writer-facing name denotes, compared after ASCII
    /// lowercasing.
    pub fn from_str(s: &str) -> (r: Result<BitTorrentDHTEvent, ()>)
        ensures
            match r {
                Ok(e) => spec_event_from_name(s.spec_bytes()) == Some(e),
                Err(_) => spec_event_from_name(s.spec_bytes()) is None,
            },
    {
        let b = s.as_bytes();
        if b.len() != 16 {
            assert(spec_lower_bytes(b@).len() == b@.len());
            return Err(());
        }
        let mut lowered: Vec<u8> = Vec::new();
        let mut i: usize = 0;
        while i < b.len()
            invariant
                0 <= i <= b@.len(),
                lowered@.len() == i,
                forall|k: int| 0 <= k < i ==> lowered@[k] == spec_lower_byte(b@[k]),
            decreases b@.len() - i,
        {
            let c = b[i];
            if 65 <= c && c <= 90 {
                lowered.push(c + 32);
            } else {
                lowered.push(c);
            }
            i = i + 1;
        }
        assert(lowered@ =~= spec_lower_bytes(b@));
        let expected = malformed_packet_name();
        let mut j: usize = 0;
        while j < 16
            invariant
                0 <= j <= 16,
                lowered@.len() == 16,
                b@ == s.spec_bytes(),
                lowered@ == spec_lower_bytes(b@),
                expected@ == spec_malformed_packet_name(),
                forall|k: int| 0 <= k < j ==> lowered@[k] == expected@[k],
            decreases 16 - j,
        {
            if lowered[j] != expected[j] {
                assert(spec_lower_bytes(b@)[j as int] != spec_malformed_packet_name()[j as int]);
                assert(spec_lower_bytes(b@) != spec_malformed_packet_name());
                return Err(());
            }
            j = j + 1;
        }
        assert(lowered@ =~= expected@);
        Ok(BitTorrentDHTEvent::MalformedPacket)
    }
}

/// The bytes of the rule-writer-facing malformed-packet event name.
fn malformed_packet_name() -> (r: Vec<u8>)
    ensures
        r@ == spec_malformed_packet_name(),
{
    let mut v: Vec<u8> = Vec::new();
    v.push(109);
    v.push(97);
    v.push(108);
    v.push(102);
    v.push(111);
    v.push(114);
    v.push(109);
    v.push(101);
    v.push(100);
    v.push(95);
    v.push(112);
    v.push(97);
    v.push(99);
    v.push(107);
    v.push(101);
    v.push(116);
    assert(v@ =~= spec_malformed_packet_name());
    v
}

/// Resolve a rule-writer-facing event name to its integer id and category.
pub fn event_info_by_name(name: &str) -> (r: Option<(u32, AppLayerEventType)>)
    ensures
        match r {
            Some(p) => spec_event_from_name(name.spec_bytes()) == Some(
                BitTorrentDHTEvent::MalformedPacket,
            ) && p.0 == spec_event_id(BitTorrentDHTEvent::MalformedPacket) && p.1
                == AppLayerEventType::Transaction,
            None => spec_event_from_name(name.spec_bytes()) is None,
        },
{
    match BitTorrentDHTEvent::from_str(name) {
        Ok(e) => {
            let id = match e {
                BitTorrentDHTEvent::MalformedPacket => 0,
            };
            Some((id, AppLayerEventType::Transaction))
        },
        Err(_) => None,
    }
}

/// Resolve an integer event id to its rule-writer-facing name and
/// category.
pub fn event_info_by_id(id: u32) -> (r: Option<(&'static str, AppLayerEventType)>)
    ensures
        match r {
            Some(p) => id == 0 && p.0.spec_bytes() == spec_malformed_packet_name() && p.1
                == AppLayerEventType::Transaction,
            None => id != 0,
        },
{
    match BitTorrentDHTEvent::from_id(id) {
        Some(e) => {
            let name: &'static str = match e {
                BitTorrentDHTEvent::MalformedPacket => "malformed_packet",
            };
            proof {
                reveal_strlit("malformed_packet");
                vstd::utf8::is_ascii_chars_encode_utf8("malformed_packet"@);
                assert(name.spec_bytes() =~= spec_malformed_packet_name());
            }
            Some((name, AppLayerEventType::Transaction))
        },
        None => None,
    }
}

/// Resolving an event's name gives back the event's own id: the two lookup
/// tables are inverse to each other on every valid event id.
pub proof fn lemma_event_info_round_trip(e: BitTorrentDHTEvent)
    ensures
        spec_event_from_name(spec_malformed_packet_name()) == Some(e),
        spec_event_id(e) == 0,
{
    assert(spec_lower_bytes(spec_malformed_packet_name()) =~= spec_malformed_packet_name());
}

/// One transaction: each received packet opens one, holding the decoded
/// request or the malformed-packet event.
#[derive(Debug)]
pub struct BitTorrentDHTTransaction {
    pub tx_id: u64,
    pub request_type: Option<String>,
    pub request: Option<BitTorrentDHTRequest>,
    pub response: Option<BitTorrentDHTResponse>,
    pub error: Option<BitTorrentDHTError>,
    pub transaction_id: Vec<u8>,
    pub client_version: Option<Vec<u8>>,
    pub de_state: Option<DetectEngineState>,
    pub events: Vec<u8>,
}

/// A decoded request: the announcing node's 20-byte identifier.
#[derive(Debug, Clone, PartialEq, Eq)]
pub struct BitTorrentDHTRequest {
    pub node_id: Vec<u8>,
}

/// A decoded response.
#[derive(Debug, Clone, PartialEq, Eq)]
pub struct BitTorrentDHTResponse {
    pub node_id: Vec<u8>,
}

/// A decoded error message.
#[derive(Debug, Clone, PartialEq, Eq)]
pub struct BitTorrentDHTError {
    pub msg: Vec<u8>,
}

/// The mathematical image of a transaction: its identity, every payload
/// and annotation field, its events, and the detection-state slot.
#[verifier::ext_equal]
pub struct BitTorrentDHTTransactionView {
    pub tx_id: u64,
    pub request_type: Option<Seq<char>>,
    pub request: Option<Seq<u8>>,
    pub response: Option<Seq<u8>>,
    pub error: Option<Seq<u8>>,
    pub transaction_id: Seq<u8>,
    pub client_version: Option<Seq<u8>>,
    pub events: Seq<u8>,
    pub de_state: Option<DetectEngineState>,
}

impl View for BitTorrentDHTTransaction {
    type V = BitTorrentDHTTransactionView;

    open spec fn view(&self) -> BitTorrentDHTTransactionView {
        BitTorrentDHTTransactionView {
            tx_id: self.tx_id,
            request_type: match self.request_type {
                Some(t) => Some(t@),
                None => None,
            },
            request: match self.request {
                Some(r) => Some(r.node_id@),
                None => None,
            },
            response: match self.response {
                Some(r) => Some(r.node_id@),
                None => None,
            },
            error: match self.error {
                Some(e) => Some(e.msg@),
                None => None,
            },
            transaction_id: self.transaction_id@,
            client_version: match self.client_version {
                Some(v) => Some(v@),
                None => None,
            },
            events: self.events@,
            de_state: self.de_state,
        }
    }
}

impl BitTorrentDHTTransaction {
    /// A fresh transaction with no payload, no events, and identity zero
    /// until the state assigns one.
    pub fn new() -> (r: BitTorrentDHTTransaction)
        ensures
            r@ == spec_empty_tx(),
    {
        let r = BitTorrentDHTTransaction {
            tx_id: 0,
            request_type: None,
            request: None,
            response: None,
            error: None,
            transaction_id: Vec::new(),
            client_version: None,
            de_state: None,
            events: Vec::new(),
        };
        proof {
            assert(r@ =~= spec_empty_tx());
        }
        r
    }

    /// Release what the transaction owns: its event list and, if the
    /// detection engine attached one, its detection-state handle.
    pub fn free(&mut self)
        ensures
            final(self)@ == (BitTorrentDHTTransactionView {
                events: Seq::empty(),
                de_state: None,
                ..old(self)@
            }),
    {
        self.events.clear();
        self.de_state = None;
        assert(self@ =~= BitTorrentDHTTransactionView {
            events: Seq::empty(),
            de_state: None,
            ..old(self)@
        });
    }

    /// Set an event on the transaction; earlier events keep their order.
    pub fn set_event(&mut self, event: BitTorrentDHTEvent)
        ensures
            final(self)@ == (BitTorrentDHTTransactionView {
                events: old(self)@.events.push(spec_event_id(event) as u8),
                ..old(self)@
            }),
    {
        let id: u8 = match event {
            BitTorrentDHTEvent::MalformedPacket => 0,
        };
        self.events.push(id);
        assert(self@ =~= BitTorrentDHTTransactionView {
            events: old(self)@.events.push(spec_event_id(event) as u8),
            ..old(self)@
        });
    }


    /// The detection-state handle attached to the transaction, if any.
    pub fn get_detect_state(&self) -> (r: Option<DetectEngineState>)
        ensures
            r == self.de_state,
    {
        self.de_state
    }

    /// Attach a detection-state handle; the transaction owns it until it
    /// is freed.
    pub fn set_detect_state(&mut self, de_state: DetectEngineState)
        ensures
            final(self).de_state == Some(de_state),
            final(self)@ == (BitTorrentDHTTransactionView {
                de_state: Some(de_state),
                ..old(self)@
            }),
    {
        self.de_state = Some(de_state);
        assert(self@ =~= (BitTorrentDHTTransactionView {
            de_state: Some(de_state),
            ..old(self)@
        }));
    }

    /// Progress of the transaction: done as soon as any payload slot is
    /// filled, since every packet opens its own transaction. Never
    /// regresses: payload slots are only ever filled.
    pub fn get_alstate_progress(&self) -> (r: i32)
        ensures
            r == if self@.request is Some || self@.response is Some || self@.error is Some {
                1int
            } else {
                0int
            },
    {
        if self.request.is_some() || self.response.is_some() || self.error.is_some() {
            1
        } else {
            0
        }
    }
}

/// The transaction `BitTorrentDHTTransaction::new` returns.
pub open spec fn spec_empty_tx() -> BitTorrentDHTTransactionView {
    BitTorrentDHTTransactionView {
        tx_id: 0,
        request_type: None,
        request: None,
        response: None,
        error: None,
        transaction_id: Seq::empty(),
        client_version: None,
        events: Seq::empty(),
        de_state: None,
    }
}

/// The transaction `parse` appends for a packet: identity from the
/// counter; the decoded request on success, the malformed-packet event
/// otherwise.
pub open spec fn spec_parsed_tx(tx_id: u64, input: Seq<u8>) -> BitTorrentDHTTransactionView {
    match spec_dht_decode(input) {
        Some(node_id) => BitTorrentDHTTransactionView { tx_id, request: Some(node_id), ..spec_empty_tx() },
        None => BitTorrentDHTTransactionView {
            tx_id,
            events: Seq::empty().push(0u8),
            ..spec_empty_tx()
        },
    }
}

/// One per-flow state: the identity counter and the transaction table.
#[derive(Debug)]
pub struct BitTorrentDHTState {
    pub tx_id: u64,
    pub transactions: Vec<BitTorrentDHTTransaction>,
}

/// The mathematical image of a state.
#[verifier::ext_equal]
pub struct BitTorrentDHTStateView {
    pub tx_id: u64,
    pub transactions: Seq<BitTorrentDHTTransactionView>,
}

impl View for BitTorrentDHTState {
    type V = BitTorrentDHTStateView;

    open spec fn view(&self) -> BitTorrentDHTStateView {
        BitTorrentDHTStateView {
            tx_id: self.tx_id,
            transactions: self.transactions@.map_values(|t: BitTorrentDHTTransaction| t@),
        }
    }
}

impl BitTorrentDHTStateView {
    /// Well-formedness: identities rise strictly with table order and
    /// every identity was assigned at or below the counter, which only
    /// rises — so no identity is ever reused, even after its transaction
    /// is freed.
    pub open spec fn wf(self) -> bool {
        &&& forall|i: int, j: int|
            0 <= i < j < self.transactions.len() ==> self.transactions[i].tx_id
                < self.transactions[j].tx_id
        &&& forall|i: int|
            0 <= i < self.transactions.len() ==> #[trigger] self.transactions[i].tx_id
                <= self.tx_id
    }
}

/// The index of the first transaction with the given identity, or the
/// length when none has it.
pub open spec fn spec_find_tx(txs: Seq<BitTorrentDHTTransactionView>, tx_id: u64, from: int) -> int
    decreases txs.len() - from,
{
    if from < 0 || from >= txs.len() {
        txs.len() as int
    } else if txs[from].tx_id == tx_id {
        from
    } else {
        spec_find_tx(txs, tx_id, from + 1)
    }
}

/// The index of the first transaction at or after `from` whose identity is
/// at least `min_id`, or the length when none remains.
pub open spec fn spec_iter_index(
    txs: Seq<BitTorrentDHTTransactionView>,
    min_id: u64,
    from: int,
) -> int
    decreases txs.len() - from,
{
    if from < 0 || from >= txs.len() {
        txs.len() as int
    } else if txs[from].tx_id >= min_id {
        from
    } else {
        spec_iter_index(txs, min_id, from + 1)
    }
}

impl BitTorrentDHTState {
    /// A fresh state: no transactions, the identity counter at zero.
    pub fn new() -> (r: BitTorrentDHTState)
        ensures
            r@.tx_id == 0,
            r@.transactions =~= Seq::<BitTorrentDHTTransactionView>::empty(),
            r@.wf(),
    {
        let r = BitTorrentDHTState { tx_id: 0, transactions: Vec::new() };
        proof {
            assert(r@.transactions =~= Seq::<BitTorrentDHTTransactionView>::empty());
        }
        r
    }

    /// Free the transaction the host knows as `tx_id` (internally stored
    /// as `tx_id + 1`), if present; the rest of the table keeps its order.
    pub fn free_tx(&mut self, tx_id: u64)
        requires
            old(self)@.wf(),
            tx_id < u64::MAX,
        ensures
            final(self)@.wf(),
            final(self)@.tx_id == old(self)@.tx_id,
            ({
                let txs = old(self)@.transactions;
                let j = spec_find_tx(txs, (tx_id + 1) as u64, 0);
                if j < txs.len() {
                    final(self)@.transactions =~= txs.remove(j)
                } else {
                    final(self)@.transactions =~= txs
                }
            }),
    {
        let mut i: usize = 0;
        let len = self.transactions.len();
        while i < len && self.transactions[i].tx_id != tx_id + 1
            invariant
                0 <= i <= len,
                len == self@.transactions.len(),
                tx_id < u64::MAX,
                spec_find_tx(self@.transactions, (tx_id + 1) as u64, 0) == spec_find_tx(
                    self@.transactions,
                    (tx_id + 1) as u64,
                    i as int,
                ),
            decreases len - i,
        {
            i = i + 1;
        }
        assert(spec_find_tx(self@.transactions, (tx_id + 1) as u64, i as int) == i || i == len);
        if i < len {
            self.transactions.remove(i);
            assert(self@.transactions =~= old(self)@.transactions.remove(i as int));
        }
    }

    /// Look up a transaction by the host-facing identity.
    pub fn get_tx(&self, tx_id: u64) -> (r: Option<&BitTorrentDHTTransaction>)
        requires
            tx_id < u64::MAX,
        ensures
            ({
                let j = spec_find_tx(self@.transactions, (tx_id + 1) as u64, 0);
                match r {
                    Some(tx) => j < self@.transactions.len() && tx@ == self@.transactions[j],
                    None => j == self@.transactions.len(),
                }
            }),
    {
        let mut i: usize = 0;
        let len = self.transactions.len();
        while i < len && self.transactions[i].tx_id != tx_id + 1
            invariant
                0 <= i <= len,
                len == self@.transactions.len(),
                tx_id < u64::MAX,
                spec_find_tx(self@.transactions, (tx_id + 1) as u64, 0) == spec_find_tx(
                    self@.transactions,
                    (tx_id + 1) as u64,
                    i as int,
                ),
            decreases len - i,
        {
            i = i + 1;
        }
        if i < len {
            Some(&self.transactions[i])
        } else {
            None
        }
    }

    /// Open a fresh transaction under the next identity; it is not yet in
    /// the table.
    fn new_tx(&mut self) -> (r: BitTorrentDHTTransaction)
        requires
            old(self)@.tx_id < u64::MAX,
        ensures
            final(self)@.tx_id == old(self)@.tx_id + 1,
            final(self)@.transactions =~= old(self)@.transactions,
            r@ == (BitTorrentDHTTransactionView {
                tx_id: (old(self)@.tx_id + 1) as u64,
                ..spec_empty_tx()
            }),
    {
        let mut tx = BitTorrentDHTTransaction::new();
        self.tx_id = self.tx_id + 1;
        tx.tx_id = self.tx_id;
        proof {
            assert(tx@ =~= BitTorrentDHTTransactionView {
                tx_id: (old(self)@.tx_id + 1) as u64,
                ..spec_empty_tx()
            });
        }
        tx
    }

    /// Consume one packet: open a transaction under the next identity,
    /// decode the packet into it, and append it to the table. A packet
    /// that violates the grammar sets the malformed-packet event on the
    /// transaction and makes the call report failure; the session
    /// continues either way.
    pub fn parse(&mut self, input: &[u8]) -> (r: bool)
        requires
            old(self)@.wf(),
            old(self)@.tx_id < u64::MAX,
        ensures
            final(self)@.wf(),
            final(self)@.tx_id == old(self)@.tx_id + 1,
            final(self)@.transactions =~= old(self)@.transactions.push(
                spec_parsed_tx((old(self)@.tx_id + 1) as u64, input@),
            ),
            r == (spec_dht_decode(input@) is Some),
    {
        let ghost sv0 = self@;
        let mut tx = self.new_tx();
        let mut status = true;
        match parse_bittorrent_dht_packet(input) {
            Ok(req) => {
                tx.request = Some(req);
            },
            Err(_) => {
                status = false;
                tx.set_event(BitTorrentDHTEvent::MalformedPacket);
            },
        }
        proof {
            assert(tx@ =~= spec_parsed_tx((sv0.tx_id + 1) as u64, input@));
        }
        self.transactions.push(tx);
        proof {
            assert(self@.transactions =~= sv0.transactions.push(
                spec_parsed_tx((sv0.tx_id + 1) as u64, input@),
            ));
            let newtxs = self@.transactions;
            assert forall|i: int| 0 <= i < newtxs.len() implies (#[trigger] newtxs[i]).tx_id
                <= self@.tx_id by {
                if i < newtxs.len() - 1 {
                    assert(newtxs[i] == sv0.transactions[i]);
                    assert(sv0.transactions[i].tx_id <= sv0.tx_id);
                }
            }
            assert forall|i: int, j: int|
                0 <= i < j < newtxs.len() implies newtxs[i].tx_id < newtxs[j].tx_id by {
                assert(newtxs[i] == sv0.transactions[i]);
                if j < newtxs.len() - 1 {
                    assert(newtxs[j] == sv0.transactions[j]);
                } else {
                    assert(sv0.transactions[i].tx_id <= sv0.tx_id);
                }
            }
        }
        status
    }

    /// The number of identities handed out so far.
    pub fn get_tx_count(&self) -> (r: u64)
        ensures
            r == self@.tx_id,
    {
        self.tx_id
    }

    /// Step the host-driven iterator: starting from the cursor, yield the
    /// first transaction whose identity is at least `min_tx_id + 1`, its
    /// host-facing identity, and whether more entries remain after it; the
    /// cursor is left on the yielded entry.
    pub fn tx_iterator(&self, min_tx_id: u64, istate: &mut u64) -> (r: Option<
        (&BitTorrentDHTTransaction, u64, bool),
    >)
        requires
            min_tx_id < u64::MAX,
            *old(istate) <= usize::MAX,
        ensures
            ({
                let txs = self@.transactions;
                let j = spec_iter_index(txs, (min_tx_id + 1) as u64, *old(istate) as int);
                match r {
                    Some(p) => {
                        &&& j < txs.len()
                        &&& p.0@ == txs[j]
                        &&& p.1 == txs[j].tx_id - 1
                        &&& p.2 == (txs.len() - j > 1)
                        &&& *final(istate) == j
                    },
                    None => j == txs.len() && *final(istate) == *old(istate),
                }
            }),
    {
        let len = self.transactions.len();
        if *istate > len as u64 {
            assert(spec_iter_index(
                self@.transactions,
                (min_tx_id + 1) as u64,
                *old(istate) as int,
            ) == len as int);
            return None;
        }
        let mut index: usize = *istate as usize;
        while index < len && self.transactions[index].tx_id < min_tx_id + 1
            invariant
                *old(istate) <= index <= len,
                len == self@.transactions.len(),
                min_tx_id < u64::MAX,
                spec_iter_index(self@.transactions, (min_tx_id + 1) as u64, *old(istate) as int)
                    == spec_iter_index(self@.transactions, (min_tx_id + 1) as u64, index as int),
            decreases len - index,
        {
            index = index + 1;
        }
        if index < len {
            let tx = &self.transactions[index];
            *istate = index as u64;
            assert(self@.transactions[index as int].tx_id >= 1);
            Some((tx, tx.tx_id - 1, (len - index) > 1))
        } else {
            None
        }
    }
}

/// Decode one packet: the announced payload prefix followed by a 20-byte
/// node identifier. Anything shorter, or differently prefixed, violates
/// the grammar.
pub fn parse_bittorrent_dht_packet(input: &[u8]) -> (r: Result<BitTorrentDHTRequest, ()>)
    ensures
        match r {
            Ok(req) => spec_dht_decode(input@) == Some(req.node_id@),
            Err(_) => spec_dht_decode(input@) is None,
        },
{
    if input.len() < 32 {
        return Err(());
    }
    if !probe(input) {
        assert(input@.subrange(0, 12) != spec_dht_prefix());
        return Err(());
    }
    let node_id = vstd::slice::slice_to_vec(vstd::slice::slice_subrange(input, 12, 32));
    Ok(BitTorrentDHTRequest { node_id })
}

/// Probe early bytes for the protocol's payload prefix; pure and
/// side-effect-free, reading at most the first twelve bytes.
pub fn probe(input: &[u8]) -> (r: bool)
    ensures
        r == (input@.len() >= 12 && input@.subrange(0, 12) == spec_dht_prefix()),
{
    if input.len() < 12 {
        return false;
    }
    let ok = input[0] == 100 && input[1] == 49 && input[2] == 58 && input[3] == 97 && input[4]
        == 100 && input[5] == 50 && input[6] == 58 && input[7] == 105 && input[8] == 100 && input[9]
        == 50 && input[10] == 48 && input[11] == 58;
    if ok {
        assert(input@.subrange(0, 12) =~= spec_dht_prefix());
    } else {
        assert(input@.subrange(0, 12) != spec_dht_prefix());
    }
    ok
}

/// Transaction identity is strictly increasing within a state and never
/// reused: in a well-formed state every identity in the table is at most
/// the counter, so the identity the next packet receives is above every
/// identity that is in use or ever was.
pub proof fn lemma_tx_id_never_reused(sv: BitTorrentDHTStateView)
    requires
        sv.wf(),
        sv.tx_id < u64::MAX,
    ensures
        forall|i: int|
            0 <= i < sv.transactions.len() ==> #[trigger] sv.transactions[i].tx_id < sv.tx_id + 1,
{
}

/// A transaction reachable through `get_tx` and through the iterator
/// agrees on all fields: in a well-formed state identities are unique, so
/// when the iterator yields the entry at `j` under the identity `id`,
/// `get_tx(id)` finds exactly that entry.
pub proof fn lemma_get_tx_iterator_agree(sv: BitTorrentDHTStateView, id: u64, start: int)
    requires
        sv.wf(),
        id < u64::MAX,
        0 <= start,
        ({
            let j = spec_iter_index(sv.transactions, (id + 1) as u64, start);
            j < sv.transactions.len() && sv.transactions[j].tx_id == id + 1
        }),
    ensures
        ({
            let j = spec_iter_index(sv.transactions, (id + 1) as u64, start);
            let k = spec_find_tx(sv.transactions, (id + 1) as u64, 0);
            k < sv.transactions.len() && sv.transactions[k] == sv.transactions[j]
        }),
{
    let j = spec_iter_index(sv.transactions, (id + 1) as u64, start);
    let k = spec_find_tx(sv.transactions, (id + 1) as u64, 0);
    if start <= sv.transactions.len() {
        lemma_iter_index_bounds(sv.transactions, (id + 1) as u64, start);
    }
    lemma_find_tx_first(sv.transactions, (id + 1) as u64, 0, j);
    if k != j {
        if k < j {
            assert(sv.transactions[k].tx_id < sv.transactions[j].tx_id);
        } else {
            assert(sv.transactions[j].tx_id < sv.transactions[k].tx_id);
        }
    }
}

/// The iterator scan stays within the table.
proof fn lemma_iter_index_bounds(txs: Seq<BitTorrentDHTTransactionView>, min_id: u64, from: int)
    requires
        0 <= from <= txs.len(),
    ensures
        from <= spec_iter_index(txs, min_id, from) <= txs.len(),
    decreases txs.len() - from,
{
    if from < txs.len() && txs[from].tx_id < min_id {
        lemma_iter_index_bounds(txs, min_id, from + 1);
    }
}

/// The iterator scan stays within the table, skips only identities below
/// the minimum, and what it yields has an identity at or above it.
pub proof fn lemma_iter_index_props(txs: Seq<BitTorrentDHTTransactionView>, min_id: u64, from: int)
    requires
        0 <= from <= txs.len(),
    ensures
        from <= spec_iter_index(txs, min_id, from) <= txs.len(),
        spec_iter_index(txs, min_id, from) < txs.len() ==> txs[spec_iter_index(
            txs,
            min_id,
            from,
        )].tx_id >= min_id,
        forall|k: int|
            from <= k < spec_iter_index(txs, min_id, from) ==> (#[trigger] txs[k]).tx_id < min_id,
    decreases txs.len() - from,
{
    if from < txs.len() && txs[from].tx_id < min_id {
        lemma_iter_index_props(txs, min_id, from + 1);
    }
}

/// `spec_find_tx` finds an index no later than any index holding the
/// identity, and what it finds holds the identity.
proof fn lemma_find_tx_first(
    txs: Seq<BitTorrentDHTTransactionView>,
    tx_id: u64,
    from: int,
    witness: int,
)
    requires
        0 <= from <= witness < txs.len(),
        txs[witness].tx_id == tx_id,
    ensures
        from <= spec_find_tx(txs, tx_id, from) <= witness,
        txs[spec_find_tx(txs, tx_id, from)].tx_id == tx_id,
    decreases witness - from,
{
    if txs[from].tx_id != tx_id {
        lemma_find_tx_first(txs, tx_id, from + 1, witness);
    }
}

} // verus!
