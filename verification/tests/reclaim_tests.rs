use rgb_ln_core::consignment::Allocation;
use rgb_ln_core::consignment::ConsignmentProof;
use rgb_ln_core::errors::SettlementError;
use rgb_ln_core::reclaim::reclaim_finalize_reveal;
use rgb_ln_core::reclaim::reclaim_plan;
use rgb_ln_core::reclaim::ReclaimPlan;
use rgb_ln_core::reclaim::SigningPath;
use rgb_ln_core::reclaim::SpendDescriptor;
use rgb_ln_core::types::ContractId;
use rgb_ln_core::types::OutPoint;
use rgb_ln_core::types::Txid;

fn txid(fill: u8) -> Txid {
    Txid { bytes: vec![fill; 32] }
}

fn outpoint(fill: u8, vout: u32) -> OutPoint {
    OutPoint { txid: txid(fill), vout }
}

fn proof_for(fill: u8) -> ConsignmentProof {
    ConsignmentProof {
        txid: txid(fill),
        contract_id: ContractId { text: b"rgb1contract".to_vec() },
        allocations: vec![
            Allocation { vout: 0, value: 5 },
            Allocation { vout: 1, value: 7 },
        ],
    }
}

fn check_common(plan: &ReclaimPlan, fill: u8, vout: u32, amount: u64) {
    assert_eq!(plan.outpoint.txid.bytes, vec![fill; 32]);
    assert_eq!(plan.outpoint.vout, vout);
    assert_eq!(plan.amount_rgb, amount);
    assert_eq!(plan.beneficiaries.len(), 1);
    assert_eq!(plan.beneficiaries[0].vout, 0);
    assert_eq!(plan.beneficiaries[0].amount, amount);
    assert_eq!(plan.beneficiaries[0].blinding, 777);
    assert_eq!(plan.consume_reveal.blinding_factor, 777);
    assert_eq!(plan.consume_reveal.outpoint.txid.bytes, vec![fill; 32]);
    assert_eq!(plan.consume_reveal.outpoint.vout, vout);
    assert!(plan.consume_reveal.witness_vout);
}

#[test]
fn static_payment_output_goes_through_a_channel_keys_wallet() {
    let descriptor = SpendDescriptor::StaticPaymentOutput {
        outpoint: outpoint(3, 1),
        channel_value_satoshis: 90_000,
        channel_keys_id: vec![4; 32],
    };
    let plan = reclaim_plan(&descriptor, &Some(proof_for(3)), &Vec::new()).unwrap();
    check_common(&plan, 3, 1, 7);
    match plan.signing {
        SigningPath::ChannelKeysWallet { channel_value_satoshis, channel_keys_id } => {
            assert_eq!(channel_value_satoshis, 90_000);
            assert_eq!(channel_keys_id, vec![4; 32]);
        }
        _ => panic!("wrong signing path"),
    }
}

#[test]
fn delayed_output_carries_its_timelock_into_the_raw_input() {
    let descriptor = SpendDescriptor::DelayedPaymentOutput {
        outpoint: outpoint(3, 0),
        channel_value_satoshis: 90_000,
        channel_keys_id: vec![4; 32],
        to_self_delay: 144,
        output_value_sats: 88_000,
    };
    let plan = reclaim_plan(&descriptor, &Some(proof_for(3)), &Vec::new()).unwrap();
    check_common(&plan, 3, 0, 5);
    match plan.signing {
        SigningPath::DynamicSigner { sequence, input_value_sats, .. } => {
            assert_eq!(sequence, 144);
            assert_eq!(input_value_sats, 88_000);
        }
        _ => panic!("wrong signing path"),
    }
}

#[test]
fn static_output_picks_the_derivation_index_by_script() {
    let destination = vec![0xee; 22];
    let ours = SpendDescriptor::StaticOutput {
        outpoint: outpoint(3, 0),
        script_pubkey: destination.clone(),
    };
    let plan = reclaim_plan(&ours, &Some(proof_for(3)), &destination).unwrap();
    match plan.signing {
        SigningPath::MasterKeyWallet { derivation_index } => assert_eq!(derivation_index, 1),
        _ => panic!("wrong signing path"),
    }
    let foreign = SpendDescriptor::StaticOutput {
        outpoint: outpoint(3, 0),
        script_pubkey: vec![0xdd; 22],
    };
    let plan = reclaim_plan(&foreign, &Some(proof_for(3)), &destination).unwrap();
    match plan.signing {
        SigningPath::MasterKeyWallet { derivation_index } => assert_eq!(derivation_index, 2),
        _ => panic!("wrong signing path"),
    }
}

#[test]
fn missing_proof_is_fatal_for_the_output() {
    let descriptor = SpendDescriptor::StaticPaymentOutput {
        outpoint: outpoint(3, 1),
        channel_value_satoshis: 90_000,
        channel_keys_id: vec![4; 32],
    };
    let err = reclaim_plan(&descriptor, &None, &Vec::new()).unwrap_err();
    assert_eq!(err, SettlementError::ProofMissing);
}

#[test]
fn proof_bound_to_another_transaction_is_refused() {
    let descriptor = SpendDescriptor::StaticPaymentOutput {
        outpoint: outpoint(3, 1),
        channel_value_satoshis: 90_000,
        channel_keys_id: vec![4; 32],
    };
    let err = reclaim_plan(&descriptor, &Some(proof_for(9)), &Vec::new()).unwrap_err();
    assert_eq!(err, SettlementError::ProofMissing);
}

#[test]
fn proof_without_an_allocation_at_the_vout_is_refused() {
    let descriptor = SpendDescriptor::StaticPaymentOutput {
        outpoint: outpoint(3, 5),
        channel_value_satoshis: 90_000,
        channel_keys_id: vec![4; 32],
    };
    let err = reclaim_plan(&descriptor, &Some(proof_for(3)), &Vec::new()).unwrap_err();
    assert_eq!(err, SettlementError::ProofMissing);
}

#[test]
fn the_new_proof_is_finalized_at_output_zero() {
    let reveal = reclaim_finalize_reveal(&txid(0x11));
    assert_eq!(reveal.blinding_factor, 777);
    assert_eq!(reveal.outpoint.txid.bytes, vec![0x11; 32]);
    assert_eq!(reveal.outpoint.vout, 0);
    assert!(reveal.witness_vout);
}
