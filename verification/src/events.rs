//! The single event handler.
//!
//! The protocol engine drives the settlement core through a closed set
//! of events; each is one arm of `NodeEvent`, so a new kind of event
//! cannot be ignored silently.  The handler owns no I/O: the shell
//! fetches what an event needs (the channel's asset terms, the asset
//! ledger's allocations, loaded proof files) before dispatching, and
//! carries out the returned plans and decisions afterwards.

use vstd::prelude::*;

use crate::consignment::channel_ready_action;
use crate::consignment::check_reveal;
use crate::consignment::finalize_status;
use crate::consignment::ConsignmentProof;
use crate::consignment::Reveal;
use crate::consignment::ValidityStatus;
use crate::consignment::REVEAL_BLINDING;
use crate::coordinator::handle_intercepted_htlc;
use crate::coordinator::intercept_decision;
use crate::coordinator::HtlcDecision;
use crate::coordinator::InterceptedHtlc;
use crate::coordinator::SwapWhitelist;
use crate::errors::SettlementError;
use crate::funding::funding_outcome_ok;
use crate::funding::owned_views;
use crate::funding::plan_funding;
use crate::funding::prefix_sum;
use crate::funding::AssetOwnedValue;
use crate::funding::FundingPlan;
use crate::ledger::ColoredUtxoLedger;
use crate::reclaim::reclaim_outcome_ok;
use crate::reclaim::reclaim_plan;
use crate::reclaim::ReclaimPlan;
use crate::reclaim::SpendDescriptor;
use crate::types::ChannelAssetInfo;
use crate::types::ChannelId;
use crate::types::Network;

verus! {

/// The mutable state the settlement core owns: the colored-UTXO ledger
/// and the swap whitelist.  Each is guarded by the caller's lock for
/// the duration of one handler call.
#[derive(Debug)]
pub struct NodeState {
    pub ledger: ColoredUtxoLedger,
    pub whitelist: SwapWhitelist,
}

impl NodeState {
    pub open spec fn wf(&self) -> bool {
        &&& self.ledger.wf()
        &&& self.whitelist.wf()
    }

    pub fn new() -> (r: NodeState)
        ensures
            r.wf(),
            r.ledger@.len() == 0,
            r.whitelist@.len() == 0,
    {
        NodeState { ledger: ColoredUtxoLedger::new(), whitelist: SwapWhitelist::new() }
    }
}

/// What consuming a proof does to the node: the validity status is a
/// function of the proof and the reveal alone, and the state — the
/// colored-UTXO ledger in particular — is left exactly as it was.
pub open spec fn consume_transition(
    s: NodeState,
    p: ConsignmentProof,
    r: Reveal,
) -> (NodeState, ValidityStatus) {
    (s, finalize_status(&p, &r))
}

impl NodeState {
    /// Consumes (finalizes) a transfer proof at a reveal.  The asset
    /// ledger service treats the call as idempotent; locally the
    /// outcome depends on nothing but the proof and the reveal.
    pub fn consume_proof(&mut self, p: &ConsignmentProof, r: &Reveal) -> (status: ValidityStatus)
        requires
            old(self).wf(),
            p.wf(),
        ensures
            final(self).wf(),
            (*final(self), status) == consume_transition(*old(self), *p, *r),
    {
        check_reveal(p, r)
    }
}

/// Finalizing the same proof at the same reveal twice settles on the
/// same validity status both times, and neither pass touches the
/// colored-UTXO ledger.
pub proof fn lemma_consume_idempotent(s0: NodeState, p: ConsignmentProof, r: Reveal)
    ensures
        ({
            let (s1, v1) = consume_transition(s0, p, r);
            let (s2, v2) = consume_transition(s1, p, r);
            v1 == v2 && s1.ledger == s0.ledger && s2.ledger == s0.ledger
        }),
{
}

/// One spendable output together with its loaded proof, if its proof
/// file existed.
#[derive(Debug)]
pub struct SpendableOutput {
    pub descriptor: SpendDescriptor,
    pub transfer_proof: Option<ConsignmentProof>,
}

/// The closed set of engine events the settlement core reacts to, each
/// already joined with the data the shell fetched for it.
#[derive(Debug)]
pub enum NodeEvent {
    /// A channel needs its funding transaction.
    FundingGenerationReady {
        temporary_channel_id: ChannelId,
        channel_value_satoshis: u64,
        output_script: Vec<u8>,
        asset_info: Option<ChannelAssetInfo>,
        owned_values: Vec<AssetOwnedValue>,
    },
    /// A channel reached the ready state; a proof file still keyed by
    /// its id means unfinalized funding change.
    ChannelReady { channel_id: ChannelId, pending_change_proof: Option<ConsignmentProof> },
    /// Closed or swept outputs became spendable.
    SpendableOutputs { outputs: Vec<SpendableOutput>, destination_script: Vec<u8> },
    /// An HTLC was intercepted as a possible swap leg.
    HtlcIntercepted {
        htlc: InterceptedHtlc,
        inbound_info: Option<ChannelAssetInfo>,
        outbound_info: Option<ChannelAssetInfo>,
    },
}

impl NodeEvent {
    /// What the shell owes the handler for each event kind.
    pub open spec fn wf(&self) -> bool {
        match self {
            NodeEvent::FundingGenerationReady { asset_info, owned_values, .. } => {
                &&& forall|i: int|
                    0 <= i < owned_values@.len() ==> (#[trigger] owned_values@[i]).seal.wf()
                &&& prefix_sum(owned_views(owned_values@), owned_values@.len() as int)
                    <= u64::MAX
                &&& (*asset_info matches Some(info) ==> info.wf())
            },
            NodeEvent::ChannelReady { pending_change_proof, .. } => {
                *pending_change_proof matches Some(p) ==> p.wf()
            },
            NodeEvent::SpendableOutputs { outputs, .. } => {
                forall|i: int|
                    0 <= i < outputs@.len() ==> ((#[trigger] outputs@[i]).descriptor.wf() && (
                    outputs@[i].transfer_proof matches Some(p) ==> p.wf()))
            },
            NodeEvent::HtlcIntercepted { .. } => true,
        }
    }
}

/// What one handled event hands back to the shell.
#[derive(Debug)]
pub enum EventOutcome {
    /// Carry this plan to the wallet, the asset ledger and the engine.
    FundingPlanned(Result<FundingPlan, SettlementError>),
    /// Consume the pending change proof at this reveal, if any.
    ChangeFinalize(Option<Reveal>),
    /// One reclaim plan, or one fatal inconsistency, per output.
    ReclaimPlanned(Vec<Result<ReclaimPlan, SettlementError>>),
    /// Forward or fail the intercepted HTLC.
    HtlcDecided(HtlcDecision),
}

/// Dispatches one engine event.
///
/// Handling mutates nothing but the swap whitelist, and that only when
/// a matching intercept consumes its entry: the colored-UTXO ledger
/// changes are made by `funding_artifacts` once the wallet has signed,
/// never here.
pub fn handle_event(state: &mut NodeState, network: Network, event: &NodeEvent) -> (outcome:
    EventOutcome)
    requires
        old(state).wf(),
        event.wf(),
    ensures
        final(state).wf(),
        final(state).ledger@ == old(state).ledger@,
        !(event is HtlcIntercepted) ==> final(state).whitelist@ == old(state).whitelist@,
        match *event {
            NodeEvent::FundingGenerationReady {
                channel_value_satoshis,
                ref output_script,
                ref asset_info,
                ref owned_values,
                ..
            } => outcome matches EventOutcome::FundingPlanned(r) && funding_outcome_ok(
                old(state).ledger,
                output_script@,
                channel_value_satoshis,
                *asset_info,
                owned_views(owned_values@),
                r,
            ),
            NodeEvent::ChannelReady { ref pending_change_proof, .. } => outcome
                matches EventOutcome::ChangeFinalize(r) && (match pending_change_proof {
                Some(p) => r matches Some(rev) && rev@ == (
                    REVEAL_BLINDING as u64,
                    (p.txid@, 1u32),
                    true,
                ),
                None => r is None,
            }),
            NodeEvent::SpendableOutputs { ref outputs, ref destination_script } => outcome
                matches EventOutcome::ReclaimPlanned(rs) && rs@.len() == outputs@.len() && (forall|
                i: int,
            |
                0 <= i < outputs@.len() ==> reclaim_outcome_ok(
                    (#[trigger] outputs@[i]).descriptor,
                    outputs@[i].transfer_proof,
                    destination_script@,
                    rs@[i],
                )),
            NodeEvent::HtlcIntercepted { ref htlc, ref inbound_info, ref outbound_info } => {
                &&& outcome matches EventOutcome::HtlcDecided(d) && d == intercept_decision(
                    old(state).whitelist,
                    *htlc,
                    *inbound_info,
                    *outbound_info,
                )
                &&& (outcome matches EventOutcome::HtlcDecided(d) && d is Forward ==> !final(state).whitelist.has_entry(htlc.payment_hash@))
                &&& (outcome matches EventOutcome::HtlcDecided(d) && !(d is Forward) ==> final(state).whitelist@ == old(state).whitelist@)
                &&& forall|h2: Seq<u8>|
                    h2 != htlc.payment_hash@ ==> final(state).whitelist.has_entry(h2) == old(state).whitelist.has_entry(h2)
            },
        },
{
    match event {
        NodeEvent::FundingGenerationReady {
            temporary_channel_id: _,
            channel_value_satoshis,
            output_script,
            asset_info,
            owned_values,
        } => {
            let r = plan_funding(
                &state.ledger,
                network,
                output_script,
                *channel_value_satoshis,
                asset_info,
                owned_values,
            );
            EventOutcome::FundingPlanned(r)
        },
        NodeEvent::ChannelReady { channel_id: _, pending_change_proof } => {
            EventOutcome::ChangeFinalize(channel_ready_action(pending_change_proof))
        },
        NodeEvent::SpendableOutputs { outputs, destination_script } => {
            let n = outputs.len();
            let mut rs: Vec<Result<ReclaimPlan, SettlementError>> = Vec::new();
            let mut i: usize = 0;
            while i < n
                invariant
                    n == outputs@.len(),
                    i <= n,
                    rs@.len() == i,
                    forall|j: int|
                        0 <= j < outputs@.len() ==> ((#[trigger] outputs@[j]).descriptor.wf() && (
                        outputs@[j].transfer_proof matches Some(p) ==> p.wf())),
                    forall|j: int|
                        0 <= j < i ==> reclaim_outcome_ok(
                            (#[trigger] outputs@[j]).descriptor,
                            outputs@[j].transfer_proof,
                            destination_script@,
                            rs@[j],
                        ),
                decreases n - i,
            {
                let out = &outputs[i];
                let r = reclaim_plan(&out.descriptor, &out.transfer_proof, destination_script);
                rs.push(r);
                i += 1;
            }
            EventOutcome::ReclaimPlanned(rs)
        },
        NodeEvent::HtlcIntercepted { htlc, inbound_info, outbound_info } => {
            let d = handle_intercepted_htlc(&mut state.whitelist, htlc, inbound_info,
            outbound_info);
            EventOutcome::HtlcDecided(d)
        },
    }
}

} // verus!
