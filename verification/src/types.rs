//! Plain-value identifiers used throughout the settlement core.
//!
//! The node at large handles these as rich wallet/engine types; the core
//! reads nothing from them beyond their raw bytes and indices, so it models
//! each as the bytes themselves.  The shell around the core converts to and
//! from the wallet's and engine's own types at the boundary.

use vstd::prelude::*;

verus! {

/// A Bitcoin transaction id, held as its 32 raw bytes.
#[derive(Debug)]
pub struct Txid {
    pub bytes: Vec<u8>,
}

impl View for Txid {
    type V = Seq<u8>;

    open spec fn view(&self) -> Seq<u8> {
        self.bytes@
    }
}

impl Txid {
    /// A transaction id is exactly 32 bytes long.
    pub open spec fn wf(&self) -> bool {
        self@.len() == 32
    }

    pub fn new(bytes: Vec<u8>) -> (r: Txid)
        requires
            bytes@.len() == 32,
        ensures
            r.wf(),
            r@ == bytes@,
    {
        Txid { bytes }
    }

    pub fn clone_id(&self) -> (r: Txid)
        ensures
            r@ == self@,
    {
        Txid { bytes: copy_bytes(&self.bytes) }
    }
}

/// A reference to one output of a transaction.
#[derive(Debug)]
pub struct OutPoint {
    pub txid: Txid,
    pub vout: u32,
}

impl View for OutPoint {
    type V = (Seq<u8>, u32);

    open spec fn view(&self) -> (Seq<u8>, u32) {
        (self.txid@, self.vout)
    }
}

impl OutPoint {
    pub open spec fn wf(&self) -> bool {
        self.txid.wf()
    }

    pub fn new(txid: Txid, vout: u32) -> (r: OutPoint)
        ensures
            r@ == (txid@, vout),
            txid.wf() ==> r.wf(),
    {
        OutPoint { txid, vout }
    }

    pub fn clone_point(&self) -> (r: OutPoint)
        ensures
            r@ == self@,
    {
        OutPoint { txid: self.txid.clone_id(), vout: self.vout }
    }
}

/// An asset contract identifier, held as the bytes of its canonical
/// textual form.  The core compares contract ids and writes them into the
/// compact swap encoding; it never looks inside them, so the text itself
/// is the whole model.
#[derive(Debug)]
pub struct ContractId {
    pub text: Vec<u8>,
}

impl View for ContractId {
    type V = Seq<u8>;

    open spec fn view(&self) -> Seq<u8> {
        self.text@
    }
}

/// A byte that may appear in a contract id: printable ASCII other than the
/// colon, which separates the fields of the compact swap encoding.
pub open spec fn is_contract_id_byte(b: u8) -> bool {
    0x21 <= b <= 0x7e && b != 0x3a
}

/// Non-empty printable ASCII text without a field separator.
pub open spec fn contract_text_ok(s: Seq<u8>) -> bool {
    &&& s.len() >= 1
    &&& forall|i: int| 0 <= i < s.len() ==> is_contract_id_byte(#[trigger] s[i])
}

/// Decides whether bytes are acceptable as a contract id's text.
pub fn contract_text_check(v: &Vec<u8>) -> (r: bool)
    ensures
        r == contract_text_ok(v@),
{
    let n = v.len();
    if n == 0 {
        return false;
    }
    let mut i: usize = 0;
    while i < n
        invariant
            n == v@.len(),
            0 < n,
            i <= n,
            forall|j: int| 0 <= j < i ==> is_contract_id_byte(#[trigger] v@[j]),
        decreases n - i,
    {
        let b = v[i];
        if b < 0x21 || b > 0x7e || b == 0x3a {
            assert(!is_contract_id_byte(v@[i as int]));
            return false;
        }
        i += 1;
    }
    true
}

impl ContractId {
    pub open spec fn wf(&self) -> bool {
        contract_text_ok(self@)
    }

    pub fn clone_id(&self) -> (r: ContractId)
        ensures
            r@ == self@,
    {
        ContractId { text: copy_bytes(&self.text) }
    }
}

/// The hash that identifies one payment across its HTLCs, as 32 raw bytes.
#[derive(Debug)]
pub struct PaymentHash {
    pub bytes: Vec<u8>,
}

impl View for PaymentHash {
    type V = Seq<u8>;

    open spec fn view(&self) -> Seq<u8> {
        self.bytes@
    }
}

impl PaymentHash {
    pub open spec fn wf(&self) -> bool {
        self@.len() == 32
    }

    pub fn clone_hash(&self) -> (r: PaymentHash)
        ensures
            r@ == self@,
    {
        PaymentHash { bytes: copy_bytes(&self.bytes) }
    }
}

/// A channel identifier assigned by the protocol engine, as 32 raw bytes.
/// Before the funding transaction exists the engine uses a temporary id of
/// the same shape.
#[derive(Debug)]
pub struct ChannelId {
    pub bytes: Vec<u8>,
}

impl View for ChannelId {
    type V = Seq<u8>;

    open spec fn view(&self) -> Seq<u8> {
        self.bytes@
    }
}

impl ChannelId {
    pub open spec fn wf(&self) -> bool {
        self@.len() == 32
    }
}

/// The asset terms of one channel, kept with the channel's data by the
/// protocol engine and read-only here.  A channel is colored exactly
/// when such a record exists for its channel id.
#[derive(Debug)]
pub struct ChannelAssetInfo {
    pub contract_id: ContractId,
    pub local_asset_amount: u64,
    pub remote_asset_amount: u64,
}

impl ChannelAssetInfo {
    pub open spec fn wf(&self) -> bool {
        self.contract_id.wf()
    }
}

/// The Bitcoin network a node runs on.
#[derive(Clone, Copy, PartialEq, Eq, Structural)]
pub enum Network {
    Bitcoin,
    Testnet,
    Regtest,
    Signet,
}

/// Byte-wise equality of two byte vectors.
pub fn bytes_eq(a: &Vec<u8>, b: &Vec<u8>) -> (r: bool)
    ensures
        r == (a@ == b@),
{
    if a.len() != b.len() {
        assert(a@.len() != b@.len());
        return false;
    }
    let n = a.len();
    let mut i: usize = 0;
    while i < n
        invariant
            n == a@.len(),
            n == b@.len(),
            i <= n,
            forall|j: int| 0 <= j < i ==> a@[j] == b@[j],
        decreases n - i,
    {
        if a[i] != b[i] {
            assert(a@[i as int] != b@[i as int]);
            return false;
        }
        i += 1;
    }
    assert(a@ =~= b@);
    true
}

/// An element-wise copy of a byte vector.
pub fn copy_bytes(v: &Vec<u8>) -> (r: Vec<u8>)
    ensures
        r@ == v@,
{
    let mut out: Vec<u8> = Vec::new();
    let n = v.len();
    let mut i: usize = 0;
    while i < n
        invariant
            n == v@.len(),
            i <= n,
            out@ == v@.take(i as int),
        decreases n - i,
    {
        out.push(v[i]);
        assert(out@ =~= v@.take(i as int + 1));
        i += 1;
    }
    assert(v@.take(n as int) =~= v@);
    out
}

/// Equality of two outpoints, as values.
pub fn outpoint_eq(a: &OutPoint, b: &OutPoint) -> (r: bool)
    ensures
        r == (a@ == b@),
{
    a.vout == b.vout && bytes_eq(&a.txid.bytes, &b.txid.bytes)
}

} // verus!
