//! The funding transaction builder.
//!
//! Reacting to a funding-needed event, the core selects inputs: for a
//! colored channel, allocations of the channel's contract are
//! accumulated in the order the asset ledger returns them until they
//! cover the channel's local asset amount; for a plain channel, nothing
//! is selected.  Every colored outpoint not selected goes to the wallet
//! as its negative input filter, so a channel can never spend an asset
//! allocation it was not given.  The wallet then builds the transaction
//! with the inputs and outputs in the stated order, because the
//! beneficiary outputs are addressed by position.

use vstd::prelude::*;

use crate::consignment::consignment_key;
use crate::consignment::consignment_key_text;
use crate::consignment::reveal_for;
use crate::consignment::Reveal;
use crate::consignment::REVEAL_BLINDING;
use crate::errors::SettlementError;
use crate::ledger::ops_contains;
use crate::ledger::ColoredUtxoLedger;
use crate::script::check_segwit_script;
use crate::script::is_segwit_script;
use crate::script::segwit_roundtrip;
use crate::types::ChannelAssetInfo;
use crate::types::ChannelId;
use crate::types::Network;
use crate::types::OutPoint;
use crate::types::Txid;

verus! {

/// One allocation the asset ledger reports: `value` units of the
/// queried contract bound to the output `seal`.
#[derive(Debug)]
pub struct AssetOwnedValue {
    pub seal: OutPoint,
    pub value: u64,
}

impl View for AssetOwnedValue {
    type V = ((Seq<u8>, u32), u64);

    open spec fn view(&self) -> ((Seq<u8>, u32), u64) {
        (self.seal@, self.value)
    }
}

pub open spec fn owned_views(s: Seq<AssetOwnedValue>) -> Seq<((Seq<u8>, u32), u64)> {
    s.map_values(|a: AssetOwnedValue| a@)
}

/// The sum of the first `k` allocation values.
pub open spec fn prefix_sum(vals: Seq<((Seq<u8>, u32), u64)>, k: int) -> nat
    decreases k,
{
    if k <= 0 {
        0
    } else {
        (prefix_sum(vals, k - 1) + vals[k - 1].1) as nat
    }
}

pub proof fn lemma_prefix_sum_le(vals: Seq<((Seq<u8>, u32), u64)>, k1: int, k2: int)
    requires
        0 <= k1 <= k2 <= vals.len(),
    ensures
        prefix_sum(vals, k1) <= prefix_sum(vals, k2),
    decreases k2 - k1,
{
    if k1 < k2 {
        lemma_prefix_sum_le(vals, k1, k2 - 1);
    }
}

/// Accumulates seals in the order the ledger returned them until they
/// cover `target`; the excess is the change.  Fails exactly when all
/// allocations together fall short.
pub fn select_asset_inputs(owned: &Vec<AssetOwnedValue>, target: u64) -> (r: Result<
    (Vec<OutPoint>, u64),
    SettlementError,
>)
    requires
        forall|i: int| 0 <= i < owned@.len() ==> (#[trigger] owned@[i]).seal.wf(),
        prefix_sum(owned_views(owned@), owned@.len() as int) <= u64::MAX,
    ensures
        ({
            let vals = owned_views(owned@);
            match r {
                Ok((sel, change)) => {
                    let k = sel@.len() as int;
                    &&& k <= owned@.len()
                    &&& forall|j: int| 0 <= j < k ==> (#[trigger] sel@[j])@ == vals[j].0
                    &&& forall|j: int| 0 <= j < k ==> (#[trigger] sel@[j]).wf()
                    &&& prefix_sum(vals, k) >= target
                    &&& forall|j: int| 0 <= j < k ==> prefix_sum(vals, j) < target
                    &&& change as nat == prefix_sum(vals, k) - target
                },
                Err(e) => {
                    &&& e == SettlementError::InsufficientAssetFunds
                    &&& prefix_sum(vals, owned@.len() as int) < target
                },
            }
        }),
{
    let ghost vals = owned_views(owned@);
    let n = owned.len();
    let mut sel: Vec<OutPoint> = Vec::new();
    let mut acc: u64 = 0;
    let mut i: usize = 0;
    while i < n && acc < target
        invariant
            n == owned@.len(),
            vals == owned_views(owned@),
            forall|j: int| 0 <= j < owned@.len() ==> (#[trigger] owned@[j]).seal.wf(),
            prefix_sum(vals, n as int) <= u64::MAX,
            i <= n,
            sel@.len() == i,
            forall|j: int| 0 <= j < i ==> (#[trigger] sel@[j])@ == vals[j].0,
            forall|j: int| 0 <= j < i ==> (#[trigger] sel@[j]).wf(),
            acc as nat == prefix_sum(vals, i as int),
            forall|j: int| 0 <= j < i ==> prefix_sum(vals, j) < target,
        decreases n - i,
    {
        let v = &owned[i];
        proof {
            assert(vals[i as int] == owned@[i as int]@);
            lemma_prefix_sum_le(vals, i as int + 1, n as int);
            assert(prefix_sum(vals, i as int + 1) == prefix_sum(vals, i as int) + vals[i
                as int].1);
        }
        sel.push(v.seal.clone_point());
        acc = acc + v.value;
        i += 1;
    }
    if acc >= target {
        Ok((sel, acc - target))
    } else {
        assert(i == n);
        Err(SettlementError::InsufficientAssetFunds)
    }
}

/// A beneficiary of an asset transfer: `amount` units assigned to the
/// seal at output `vout` of the transaction under construction, under
/// the fixed blinding.
#[derive(Clone, Copy, PartialEq, Eq, Structural, Debug)]
pub struct Beneficiary {
    pub vout: u32,
    pub amount: u64,
    pub blinding: u64,
}

/// The asset side of a colored funding: which contract moves, how much
/// to the channel, how much back as change, and the positional
/// beneficiary map handed to the asset ledger's transfer call.
#[derive(Debug)]
pub struct ColoredFunding {
    pub contract_id: crate::types::ContractId,
    pub local_amount: u64,
    pub change_amount: u64,
    pub beneficiaries: Vec<Beneficiary>,
}

/// Everything the wallet needs to build and sign one funding
/// transaction, with input and output order fixed.
#[derive(Debug)]
pub struct FundingPlan {
    pub recipient_script: Vec<u8>,
    pub channel_value_satoshis: u64,
    pub selected_inputs: Vec<OutPoint>,
    pub unspendable: Vec<OutPoint>,
    pub colored: Option<ColoredFunding>,
}

/// The whole contract of funding planning, named so the event
/// dispatcher can state it of its own outcome too.
pub open spec fn funding_outcome_ok(
    ledger: ColoredUtxoLedger,
    output_script: Seq<u8>,
    channel_value_satoshis: u64,
    asset_info: Option<ChannelAssetInfo>,
    vals: Seq<((Seq<u8>, u32), u64)>,
    r: Result<FundingPlan, SettlementError>,
) -> bool {
    let target = match asset_info {
        Some(info) => info.local_asset_amount,
        None => 0,
    };
    &&& (!is_segwit_script(output_script) ==> r == Err::<FundingPlan, SettlementError>(
        SettlementError::WalletOperationFailed,
    ))
    &&& ((is_segwit_script(output_script) && (asset_info matches Some(info) && prefix_sum(
        vals,
        vals.len() as int,
    ) >= info.local_asset_amount)) ==> r is Ok)
    &&& ((is_segwit_script(output_script) && asset_info is None) ==> r is Ok)
    &&& match r {
        Ok(plan) => {
            &&& is_segwit_script(output_script)
            &&& plan.recipient_script@ == output_script
            &&& plan.channel_value_satoshis == channel_value_satoshis
            &&& forall|q: (Seq<u8>, u32)|
                !(ops_contains(plan.selected_inputs@, q) && ops_contains(plan.unspendable@, q))
            &&& forall|q: (Seq<u8>, u32)|
                ledger.entry_colored(q) ==> #[trigger] ops_contains(plan.selected_inputs@, q)
                    || ops_contains(plan.unspendable@, q)
            &&& match asset_info {
                None => {
                    &&& plan.selected_inputs@.len() == 0
                    &&& plan.colored is None
                    &&& forall|q: (Seq<u8>, u32)|
                        #[trigger] ops_contains(plan.unspendable@, q) == ledger.entry_colored(q)
                },
                Some(info) => {
                    let k = plan.selected_inputs@.len() as int;
                    &&& plan.colored matches Some(cf)
                    &&& (plan.colored matches Some(cf) ==> {
                        &&& cf.contract_id@ == info.contract_id@
                        &&& cf.local_amount == info.local_asset_amount
                        &&& cf.change_amount as nat == prefix_sum(vals, k)
                            - info.local_asset_amount
                        &&& cf.beneficiaries@.len() == (if cf.change_amount > 0 {
                            2int
                        } else {
                            1int
                        })
                        &&& cf.beneficiaries@[0] == (Beneficiary {
                            vout: 0u32,
                            amount: info.local_asset_amount,
                            blinding: REVEAL_BLINDING as u64,
                        })
                        &&& (cf.change_amount > 0 ==> cf.beneficiaries@[1] == (Beneficiary {
                            vout: 1u32,
                            amount: cf.change_amount,
                            blinding: REVEAL_BLINDING as u64,
                        }))
                    })
                    &&& k <= vals.len()
                    &&& forall|j: int|
                        0 <= j < k ==> (#[trigger] plan.selected_inputs@[j])@ == vals[j].0
                    &&& prefix_sum(vals, k) >= info.local_asset_amount
                    &&& forall|j: int|
                        0 <= j < k ==> prefix_sum(vals, j) < info.local_asset_amount
                    &&& forall|q: (Seq<u8>, u32)|
                        #[trigger] ops_contains(plan.unspendable@, q) == (ledger.entry_colored(q)
                            && !ops_contains(plan.selected_inputs@, q))
                },
            }
        },
        Err(e) => {
            ||| (e == SettlementError::WalletOperationFailed && !is_segwit_script(output_script))
            ||| (e == SettlementError::InsufficientAssetFunds && asset_info is Some
                && prefix_sum(vals, vals.len() as int) < target)
        },
    }
}

/// Plans a funding transaction.
///
/// For a plain channel nothing touches the asset ledger and the whole
/// colored set is excluded from input selection.  For a colored channel
/// the selected allocations cover the local amount or the plan fails
/// with `InsufficientAssetFunds`, and every colored outpoint is either
/// selected or excluded, never both, so the selection can never spend
/// an allocation of another contract.
pub fn plan_funding(
    ledger: &ColoredUtxoLedger,
    network: Network,
    output_script: &Vec<u8>,
    channel_value_satoshis: u64,
    asset_info: &Option<ChannelAssetInfo>,
    owned_values: &Vec<AssetOwnedValue>,
) -> (r: Result<FundingPlan, SettlementError>)
    requires
        ledger.wf(),
        forall|i: int| 0 <= i < owned_values@.len() ==> (#[trigger] owned_values@[i]).seal.wf(),
        prefix_sum(owned_views(owned_values@), owned_values@.len() as int) <= u64::MAX,
        (*asset_info matches Some(info) ==> info.wf()),
    ensures
        funding_outcome_ok(
            *ledger,
            output_script@,
            channel_value_satoshis,
            *asset_info,
            owned_views(owned_values@),
            r,
        ),
{
    if !check_segwit_script(output_script) {
        return Err(SettlementError::WalletOperationFailed);
    }
    let recipient_script = segwit_roundtrip(output_script, network);
    match asset_info {
        None => {
            let empty: Vec<OutPoint> = Vec::new();
            let unspendable = ledger.unspendable_set(&empty);
            proof {
                assert forall|q: (Seq<u8>, u32)| #[trigger]
                    ops_contains(unspendable@, q) == ledger.entry_colored(q) by {
                    assert(!ops_contains(empty@, q));
                }
            }
            Ok(
                FundingPlan {
                    recipient_script,
                    channel_value_satoshis,
                    selected_inputs: Vec::new(),
                    unspendable,
                    colored: None,
                },
            )
        },
        Some(info) => {
            let selection = select_asset_inputs(owned_values, info.local_asset_amount);
            match selection {
                Err(e) => Err(e),
                Ok((selected_inputs, change_amount)) => {
                    let unspendable = ledger.unspendable_set(&selected_inputs);
                    let mut beneficiaries: Vec<Beneficiary> = Vec::new();
                    beneficiaries.push(
                        Beneficiary {
                            vout: 0,
                            amount: info.local_asset_amount,
                            blinding: REVEAL_BLINDING,
                        },
                    );
                    if change_amount > 0 {
                        beneficiaries.push(
                            Beneficiary {
                                vout: 1,
                                amount: change_amount,
                                blinding: REVEAL_BLINDING,
                            },
                        );
                    }
                    let colored = ColoredFunding {
                        contract_id: info.contract_id.clone_id(),
                        local_amount: info.local_asset_amount,
                        change_amount,
                        beneficiaries,
                    };
                    Ok(
                        FundingPlan {
                            recipient_script,
                            channel_value_satoshis,
                            selected_inputs,
                            unspendable,
                            colored: Some(colored),
                        },
                    )
                },
            }
        },
    }
}

/// What colored funding leaves behind once the wallet has signed and
/// the funding transaction id is known: the file keys to persist the
/// proof under, the reveal to consume it with after a successful relay,
/// and the ledger line for the change output.
#[derive(Debug)]
pub struct FundingArtifacts {
    pub proof_keys: Vec<Vec<u8>>,
    pub relay_reveal: Reveal,
}

/// Records the outcome of signing a colored funding transaction.
///
/// The proof is persisted under the funding transaction id; when the
/// plan carries change, it is persisted a second time under the
/// temporary channel id (so it can be recovered before the
/// counterparty learns the real id) and the change output, which sits
/// at output 2 behind the funding and change beneficiaries, is marked
/// colored.  The reveal consumes the proof at output 0 once the relay
/// has succeeded.
pub fn funding_artifacts(
    ledger: &mut ColoredUtxoLedger,
    plan: &FundingPlan,
    funding_txid: &Txid,
    temporary_channel_id: &ChannelId,
) -> (r: Option<FundingArtifacts>)
    requires
        old(ledger).wf(),
        funding_txid.wf(),
    ensures
        final(ledger).wf(),
        r is Some == plan.colored is Some,
        ({
            match (r, &plan.colored) {
                (Some(a), Some(cf)) => {
                    &&& a.relay_reveal@ == (REVEAL_BLINDING as u64, (funding_txid@, 0u32), true)
                    &&& a.proof_keys@.len() == (if cf.change_amount > 0 {
                        2int
                    } else {
                        1int
                    })
                    &&& a.proof_keys@[0]@ == consignment_key_text(funding_txid@)
                    &&& (cf.change_amount > 0 ==> a.proof_keys@[1]@ == consignment_key_text(
                        temporary_channel_id@,
                    ))
                    &&& (cf.change_amount > 0 ==> {
                        &&& final(ledger).entry_colored((funding_txid@, 2u32))
                        &&& forall|q: (Seq<u8>, u32)|
                            q != (funding_txid@, 2u32) ==> final(ledger).entry_colored(q) == old(
                                ledger,
                            ).entry_colored(q)
                    })
                    &&& (cf.change_amount == 0 ==> final(ledger)@ == old(ledger)@)
                },
                (None, None) => final(ledger)@ == old(ledger)@,
                _ => false,
            }
        }),
{
    match &plan.colored {
        None => None,
        Some(cf) => {
            let mut proof_keys: Vec<Vec<u8>> = Vec::new();
            proof_keys.push(consignment_key(&funding_txid.bytes));
            if cf.change_amount > 0 {
                proof_keys.push(consignment_key(&temporary_channel_id.bytes));
                let change_outpoint = OutPoint { txid: funding_txid.clone_id(), vout: 2 };
                ledger.mark_colored(change_outpoint);
            }
            Some(FundingArtifacts { proof_keys, relay_reveal: reveal_for(funding_txid, 0) })
        },
    }
}

/// The rule for the relay step: only a proof the counterparty has
/// accepted lets the funding transaction go to the engine; a failed or
/// rejected relay aborts the channel open before that.
pub fn relay_gate(relay_accepted: bool) -> (r: Result<(), SettlementError>)
    ensures
        relay_accepted ==> r is Ok,
        !relay_accepted ==> r == Err::<(), SettlementError>(SettlementError::ProofRelayFailed),
{
    if relay_accepted {
        Ok(())
    } else {
        Err(SettlementError::ProofRelayFailed)
    }
}

} // verus!
