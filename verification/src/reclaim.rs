//! The spendable-output reclaimer.
//!
//! When channel closes or commitment sweeps make outputs spendable, the
//! asset amount attached to each closing output is reconstructed from
//! its transfer proof, and a reclaim transaction moving that amount to
//! a fresh wallet address is planned.  Each descriptor kind takes its
//! own signing path: counterparty-delayed and static outputs go through
//! a one-off signing wallet derived per descriptor; a local delayed
//! output is spent through a raw input carrying its relative timelock
//! and witnessed by the descriptor's dynamic signer.  A missing proof,
//! or one not bound to the output, is a fatal inconsistency for that
//! output and is surfaced, never skipped.

use vstd::prelude::*;

use crate::consignment::reveal_for;
use crate::consignment::ConsignmentProof;
use crate::consignment::Reveal;
use crate::consignment::REVEAL_BLINDING;
use crate::errors::SettlementError;
use crate::funding::Beneficiary;
use crate::types::bytes_eq;
use crate::types::copy_bytes;
use crate::types::OutPoint;

verus! {

/// One output the engine reports as spendable, with what the signing
/// path of its kind needs.
#[derive(Debug)]
pub enum SpendDescriptor {
    /// A counterparty-commitment output paying straight to us.
    StaticPaymentOutput { outpoint: OutPoint, channel_value_satoshis: u64, channel_keys_id: Vec<u8> },
    /// Our own delayed commitment output, spendable after its relative
    /// timelock.
    DelayedPaymentOutput {
        outpoint: OutPoint,
        channel_value_satoshis: u64,
        channel_keys_id: Vec<u8>,
        to_self_delay: u16,
        output_value_sats: u64,
    },
    /// An output to a static script of ours.
    StaticOutput { outpoint: OutPoint, script_pubkey: Vec<u8> },
}

impl SpendDescriptor {
    pub open spec fn spec_outpoint(&self) -> (Seq<u8>, u32) {
        match self {
            SpendDescriptor::StaticPaymentOutput { outpoint, .. } => outpoint@,
            SpendDescriptor::DelayedPaymentOutput { outpoint, .. } => outpoint@,
            SpendDescriptor::StaticOutput { outpoint, .. } => outpoint@,
        }
    }

    pub open spec fn wf(&self) -> bool {
        match self {
            SpendDescriptor::StaticPaymentOutput { outpoint, .. } => outpoint.wf(),
            SpendDescriptor::DelayedPaymentOutput { outpoint, .. } => outpoint.wf(),
            SpendDescriptor::StaticOutput { outpoint, .. } => outpoint.wf(),
        }
    }

    /// The outpoint this descriptor spends.
    pub fn outpoint(&self) -> (r: &OutPoint)
        ensures
            r@ == self.spec_outpoint(),
    {
        match self {
            SpendDescriptor::StaticPaymentOutput { outpoint, .. } => outpoint,
            SpendDescriptor::DelayedPaymentOutput { outpoint, .. } => outpoint,
            SpendDescriptor::StaticOutput { outpoint, .. } => outpoint,
        }
    }
}

/// How the reclaim transaction gets signed.
#[derive(Debug)]
pub enum SigningPath {
    /// A one-off wallet seeded from the channel keys the descriptor
    /// names; it selects exactly the reclaimed input and drains to the
    /// fresh address.
    ChannelKeysWallet { channel_value_satoshis: u64, channel_keys_id: Vec<u8> },
    /// A raw input carrying the descriptor's relative timelock as its
    /// sequence, change-adjusted by the external fee helper and
    /// witnessed by the descriptor's dynamic signer.
    DynamicSigner {
        sequence: u32,
        input_value_sats: u64,
        channel_value_satoshis: u64,
        channel_keys_id: Vec<u8>,
    },
    /// A one-off wallet seeded from the node's master key at a fixed
    /// derivation index: the first index when the output pays the
    /// node's destination script, the second otherwise.
    MasterKeyWallet { derivation_index: u32 },
}

/// The plan for reclaiming one spendable output.
#[derive(Debug)]
pub struct ReclaimPlan {
    /// The output being reclaimed: the only input of the new
    /// transaction.
    pub outpoint: OutPoint,
    /// The revealed asset amount bound to that output, which must
    /// travel whole to the new transaction's first output.
    pub amount_rgb: u64,
    /// The single beneficiary of the asset transfer.
    pub beneficiaries: Vec<Beneficiary>,
    /// Finalizes the loaded proof at the descriptor's own output
    /// before the amount is extracted.
    pub consume_reveal: Reveal,
    pub signing: SigningPath,
}

/// The whole contract of reclaim planning, named so the event
/// dispatcher can state it of its own outcome too.
pub open spec fn reclaim_outcome_ok(
    descriptor: SpendDescriptor,
    transfer_proof: Option<ConsignmentProof>,
    destination_script: Seq<u8>,
    r: Result<ReclaimPlan, SettlementError>,
) -> bool {
    let op = descriptor.spec_outpoint();
    let usable = transfer_proof matches Some(p) && p.txid@ == op.0 && p.has_allocation(op.1);
    &&& (r is Ok <==> usable)
    &&& match r {
        Ok(plan) => {
            &&& transfer_proof matches Some(p) && {
                &&& plan.outpoint@ == op
                &&& plan.amount_rgb == p.allocation_value(op.1)
                &&& plan.beneficiaries@.len() == 1
                &&& plan.beneficiaries@[0] == (Beneficiary {
                    vout: 0u32,
                    amount: p.allocation_value(op.1),
                    blinding: REVEAL_BLINDING as u64,
                })
                &&& plan.consume_reveal@ == (REVEAL_BLINDING as u64, op, true)
            }
            &&& match descriptor {
                SpendDescriptor::StaticPaymentOutput {
                    channel_value_satoshis,
                    channel_keys_id,
                    ..
                } => plan.signing matches SigningPath::ChannelKeysWallet {
                    channel_value_satoshis: v,
                    channel_keys_id: k,
                } && v == channel_value_satoshis && k@ == channel_keys_id@,
                SpendDescriptor::DelayedPaymentOutput {
                    channel_value_satoshis,
                    channel_keys_id,
                    to_self_delay,
                    output_value_sats,
                    ..
                } => plan.signing matches SigningPath::DynamicSigner {
                    sequence,
                    input_value_sats,
                    channel_value_satoshis: v,
                    channel_keys_id: k,
                } && sequence == to_self_delay as u32 && input_value_sats == output_value_sats
                    && v == channel_value_satoshis && k@ == channel_keys_id@,
                SpendDescriptor::StaticOutput { script_pubkey, .. } => plan.signing
                    matches SigningPath::MasterKeyWallet { derivation_index } && derivation_index
                    == (if script_pubkey@ == destination_script {
                    1u32
                } else {
                    2u32
                }),
            }
        },
        Err(e) => e == SettlementError::ProofMissing,
    }
}

/// Plans the reclaim of one spendable output from its transfer proof.
pub fn reclaim_plan(
    descriptor: &SpendDescriptor,
    transfer_proof: &Option<ConsignmentProof>,
    destination_script: &Vec<u8>,
) -> (r: Result<ReclaimPlan, SettlementError>)
    requires
        descriptor.wf(),
        (*transfer_proof matches Some(p) ==> p.wf()),
    ensures
        reclaim_outcome_ok(*descriptor, *transfer_proof, destination_script@, r),
{
    let p = match transfer_proof {
        None => {
            return Err(SettlementError::ProofMissing);
        },
        Some(p) => p,
    };
    let op = descriptor.outpoint();
    if !bytes_eq(&p.txid.bytes, &op.txid.bytes) {
        return Err(SettlementError::ProofMissing);
    }
    let amount_rgb = match p.value_at(op.vout) {
        None => {
            return Err(SettlementError::ProofMissing);
        },
        Some(v) => v,
    };
    let mut beneficiaries: Vec<Beneficiary> = Vec::new();
    beneficiaries.push(Beneficiary { vout: 0, amount: amount_rgb, blinding: REVEAL_BLINDING });
    let consume_reveal = reveal_for(&op.txid, op.vout);
    let signing = match descriptor {
        SpendDescriptor::StaticPaymentOutput { channel_value_satoshis, channel_keys_id, .. } => {
            SigningPath::ChannelKeysWallet {
                channel_value_satoshis: *channel_value_satoshis,
                channel_keys_id: copy_bytes(channel_keys_id),
            }
        },
        SpendDescriptor::DelayedPaymentOutput {
            channel_value_satoshis,
            channel_keys_id,
            to_self_delay,
            output_value_sats,
            ..
        } => {
            SigningPath::DynamicSigner {
                sequence: *to_self_delay as u32,
                input_value_sats: *output_value_sats,
                channel_value_satoshis: *channel_value_satoshis,
                channel_keys_id: copy_bytes(channel_keys_id),
            }
        },
        SpendDescriptor::StaticOutput { script_pubkey, .. } => {
            let derivation_index: u32 = if bytes_eq(script_pubkey, destination_script) {
                1
            } else {
                2
            };
            SigningPath::MasterKeyWallet { derivation_index }
        },
    };
    Ok(
        ReclaimPlan {
            outpoint: op.clone_point(),
            amount_rgb,
            beneficiaries,
            consume_reveal,
            signing,
        },
    )
}

/// The reveal that finalizes a reclaim's new proof: output 0 of the
/// broadcast reclaim transaction, under the fixed blinding.
pub fn reclaim_finalize_reveal(new_txid: &crate::types::Txid) -> (r: Reveal)
    ensures
        r@ == (REVEAL_BLINDING as u64, (new_txid@, 0u32), true),
{
    reveal_for(new_txid, 0)
}

} // verus!
