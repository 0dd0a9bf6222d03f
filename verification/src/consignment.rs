//! The transfer-proof lifecycle.
//!
//! A consignment proof is created when a funding or reclaim transaction
//! is built, persisted under a file key derived from the transaction id
//! (and, when it carries change, a second key derived from the temporary
//! channel id), relayed to the counterparty, and later consumed
//! ("finalized") at a specific output with a fixed-blinding reveal.  The
//! proof blob itself is opaque; the core models exactly what it reads
//! from one: the transaction it is bound to, its contract, and the
//! revealed allocation value at each output of its closing transition.

use vstd::prelude::*;

use crate::text::hex_encode;
use crate::text::hex_text;
use crate::types::ContractId;
use crate::types::OutPoint;
use crate::types::Txid;

verus! {

/// The blinding factor used for every reveal and witness-vout seal.
/// One fixed value for all seals offers no privacy; nothing here
/// depends on which value it is.
pub const REVEAL_BLINDING: u64 = 777;

/// The reveal under which a proof is consumed: the output it finalizes
/// and the blinding of that output's seal.
#[derive(Debug)]
pub struct Reveal {
    pub blinding_factor: u64,
    pub outpoint: OutPoint,
    pub witness_vout: bool,
}

impl View for Reveal {
    type V = (u64, (Seq<u8>, u32), bool);

    open spec fn view(&self) -> (u64, (Seq<u8>, u32), bool) {
        (self.blinding_factor, self.outpoint@, self.witness_vout)
    }
}

/// The fixed-blinding reveal at output `vout` of transaction `txid`.
pub fn reveal_for(txid: &Txid, vout: u32) -> (r: Reveal)
    ensures
        r@ == (REVEAL_BLINDING as u64, (txid@, vout), true),
{
    Reveal {
        blinding_factor: REVEAL_BLINDING,
        outpoint: OutPoint { txid: txid.clone_id(), vout },
        witness_vout: true,
    }
}

/// One revealed allocation of a proof's closing transition: `value`
/// asset units bound to output `vout`.
#[derive(Debug)]
pub struct Allocation {
    pub vout: u32,
    pub value: u64,
}

impl View for Allocation {
    type V = (u32, u64);

    open spec fn view(&self) -> (u32, u64) {
        (self.vout, self.value)
    }
}

/// What the core reads from a consignment proof: the transaction it is
/// bound to, the contract it transfers, and the revealed allocations of
/// its closing transition.  The shell loads and stores the opaque blob
/// and extracts these three.
#[derive(Debug)]
pub struct ConsignmentProof {
    pub txid: Txid,
    pub contract_id: ContractId,
    pub allocations: Vec<Allocation>,
}

impl View for ConsignmentProof {
    type V = (Seq<u8>, Seq<u8>, Seq<(u32, u64)>);

    open spec fn view(&self) -> (Seq<u8>, Seq<u8>, Seq<(u32, u64)>) {
        (self.txid@, self.contract_id@, self.allocations@.map_values(|a: Allocation| a@))
    }
}

impl ConsignmentProof {
    pub open spec fn allocation_views(&self) -> Seq<(u32, u64)> {
        self.allocations@.map_values(|a: Allocation| a@)
    }

    /// Each output carries at most one revealed allocation.
    pub open spec fn wf(&self) -> bool {
        &&& self.txid.wf()
        &&& self.contract_id.wf()
        &&& forall|i: int, j: int|
            0 <= i < j < self.allocation_views().len() ==> (#[trigger] self.allocation_views()[i]).0
                != (#[trigger] self.allocation_views()[j]).0
    }

    pub open spec fn has_allocation(&self, vout: u32) -> bool {
        exists|i: int|
            0 <= i < self.allocation_views().len() && (#[trigger] self.allocation_views()[i]).0
                == vout
    }

    /// The revealed value at `vout`; meaningful only when present.
    pub open spec fn allocation_value(&self, vout: u32) -> u64 {
        let i = choose|i: int|
            0 <= i < self.allocation_views().len() && (#[trigger] self.allocation_views()[i]).0
                == vout;
        self.allocation_views()[i].1
    }

    /// Finds the revealed value bound to `vout`.
    pub fn value_at(&self, vout: u32) -> (r: Option<u64>)
        requires
            self.wf(),
        ensures
            ({
                match r {
                    Some(v) => self.has_allocation(vout) && v == self.allocation_value(vout),
                    None => !self.has_allocation(vout),
                }
            }),
    {
        let n = self.allocations.len();
        let mut i: usize = 0;
        while i < n
            invariant
                self.wf(),
                n == self.allocations@.len(),
                i <= n,
                forall|j: int| 0 <= j < i ==> (#[trigger] self.allocation_views()[j]).0 != vout,
            decreases n - i,
        {
            let a = &self.allocations[i];
            if a.vout == vout {
                proof {
                    assert((#[trigger] self.allocation_views()[i as int]).0 == vout);
                    let w = choose|w: int|
                        0 <= w < self.allocation_views().len() && (
                        #[trigger] self.allocation_views()[w]).0 == vout;
                    assert(w == i as int);
                }
                return Some(a.value);
            }
            proof {
                assert(self.allocation_views()[i as int].0 != vout);
            }
            i += 1;
        }
        None
    }
}

/// What the asset ledger service reports of one consume call.
#[derive(Clone, Copy, PartialEq, Eq, Structural, Debug)]
pub enum ValidityStatus {
    Valid,
    Invalid,
}

/// The status a consume call settles on: valid exactly when the reveal
/// points at an output of the bound transaction that the proof's
/// closing transition really allocates to.  A function of the proof and
/// the reveal alone, so consuming is idempotent.
pub open spec fn finalize_status(p: &ConsignmentProof, r: &Reveal) -> ValidityStatus {
    if p.txid@ == r.outpoint@.0 && r.witness_vout && p.has_allocation(r.outpoint@.1) {
        ValidityStatus::Valid
    } else {
        ValidityStatus::Invalid
    }
}

/// Checks a reveal against a proof, as the consume call does.
pub fn check_reveal(p: &ConsignmentProof, r: &Reveal) -> (status: ValidityStatus)
    requires
        p.wf(),
    ensures
        status == finalize_status(p, r),
{
    if !crate::types::bytes_eq(&p.txid.bytes, &r.outpoint.txid.bytes) {
        return ValidityStatus::Invalid;
    }
    if !r.witness_vout {
        return ValidityStatus::Invalid;
    }
    match p.value_at(r.outpoint.vout) {
        Some(_) => ValidityStatus::Valid,
        None => ValidityStatus::Invalid,
    }
}

/// The text `consignment_` as bytes: the prefix of every proof file key.
pub open spec fn consignment_prefix() -> Seq<u8> {
    seq![
        0x63u8,
        0x6fu8,
        0x6eu8,
        0x73u8,
        0x69u8,
        0x67u8,
        0x6eu8,
        0x6du8,
        0x65u8,
        0x6eu8,
        0x74u8,
        0x5fu8,
    ]
}

/// The file key a proof is persisted under for an identifier (a
/// transaction id or a temporary channel id): `consignment_` followed
/// by the identifier's lowercase hex.
pub open spec fn consignment_key_text(id: Seq<u8>) -> Seq<u8> {
    consignment_prefix() + hex_text(id)
}

/// Builds the proof file key for an identifier.
pub fn consignment_key(id: &Vec<u8>) -> (r: Vec<u8>)
    ensures
        r@ == consignment_key_text(id@),
{
    let mut out: Vec<u8> = Vec::new();
    out.push(0x63);
    out.push(0x6f);
    out.push(0x6e);
    out.push(0x73);
    out.push(0x69);
    out.push(0x67);
    out.push(0x6e);
    out.push(0x6d);
    out.push(0x65);
    out.push(0x6e);
    out.push(0x74);
    out.push(0x5f);
    let hex = hex_encode(id);
    crate::text::append_bytes(&mut out, &hex);
    proof {
        assert(out@ =~= consignment_key_text(id@));
    }
    out
}

/// On the channel-ready event: a proof file still keyed by the channel
/// id means the funding carried change whose transfer is not finalized
/// yet; it is consumed at output 1 of the funding transaction with the
/// fixed-blinding reveal.  No pending proof, nothing to do.
pub fn channel_ready_action(pending_change_proof: &Option<ConsignmentProof>) -> (r: Option<
    Reveal,
>)
    requires
        (*pending_change_proof matches Some(p) ==> p.wf()),
    ensures
        ({
            match pending_change_proof {
                Some(p) => r matches Some(rev) && rev@ == (
                    REVEAL_BLINDING as u64,
                    (p.txid@, 1u32),
                    true,
                ),
                None => r is None,
            }
        }),
{
    match pending_change_proof {
        Some(p) => Some(reveal_for(&p.txid, 1)),
        None => None,
    }
}

} // verus!
