use rgb_ln_core::consignment::Allocation;
use rgb_ln_core::consignment::ConsignmentProof;
use rgb_ln_core::consignment::ValidityStatus;
use rgb_ln_core::consignment::consignment_key;
use rgb_ln_core::consignment::reveal_for;
use rgb_ln_core::coordinator::HtlcDecision;
use rgb_ln_core::coordinator::InterceptedHtlc;
use rgb_ln_core::coordinator::WhitelistEntry;
use rgb_ln_core::events::handle_event;
use rgb_ln_core::events::EventOutcome;
use rgb_ln_core::events::NodeEvent;
use rgb_ln_core::events::NodeState;
use rgb_ln_core::events::SpendableOutput;
use rgb_ln_core::funding::AssetOwnedValue;
use rgb_ln_core::reclaim::SpendDescriptor;
use rgb_ln_core::swap::SwapType;
use rgb_ln_core::types::ChannelAssetInfo;
use rgb_ln_core::types::ChannelId;
use rgb_ln_core::types::ContractId;
use rgb_ln_core::types::Network;
use rgb_ln_core::types::OutPoint;
use rgb_ln_core::types::PaymentHash;
use rgb_ln_core::types::Txid;

fn txid(fill: u8) -> Txid {
    Txid { bytes: vec![fill; 32] }
}

fn outpoint(fill: u8, vout: u32) -> OutPoint {
    OutPoint { txid: txid(fill), vout }
}

fn p2wpkh_script() -> Vec<u8> {
    let mut s = vec![0x00, 0x14];
    s.extend(vec![0xabu8; 20]);
    s
}

fn proof_for(fill: u8) -> ConsignmentProof {
    ConsignmentProof {
        txid: txid(fill),
        contract_id: ContractId { text: b"rgb1contract".to_vec() },
        allocations: vec![Allocation { vout: 0, value: 5 }, Allocation { vout: 1, value: 7 }],
    }
}

#[test]
fn funding_event_is_planned_through_the_dispatcher() {
    let mut state = NodeState::new();
    let event = NodeEvent::FundingGenerationReady {
        temporary_channel_id: ChannelId { bytes: vec![1; 32] },
        channel_value_satoshis: 30_010,
        output_script: p2wpkh_script(),
        asset_info: Some(ChannelAssetInfo {
            contract_id: ContractId { text: b"rgb1contract".to_vec() },
            local_asset_amount: 500,
            remote_asset_amount: 0,
        }),
        owned_values: vec![
            AssetOwnedValue { seal: outpoint(7, 0), value: 300 },
            AssetOwnedValue { seal: outpoint(8, 1), value: 400 },
        ],
    };
    match handle_event(&mut state, Network::Regtest, &event) {
        EventOutcome::FundingPlanned(Ok(plan)) => {
            assert_eq!(plan.selected_inputs.len(), 2);
            let colored = plan.colored.unwrap();
            assert_eq!(colored.change_amount, 200);
        }
        _ => panic!("wrong outcome"),
    }
}

#[test]
fn channel_ready_with_pending_change_finalizes_at_output_one() {
    let mut state = NodeState::new();
    let event = NodeEvent::ChannelReady {
        channel_id: ChannelId { bytes: vec![1; 32] },
        pending_change_proof: Some(proof_for(3)),
    };
    match handle_event(&mut state, Network::Regtest, &event) {
        EventOutcome::ChangeFinalize(Some(reveal)) => {
            assert_eq!(reveal.blinding_factor, 777);
            assert_eq!(reveal.outpoint.txid.bytes, vec![3; 32]);
            assert_eq!(reveal.outpoint.vout, 1);
        }
        _ => panic!("wrong outcome"),
    }
}

#[test]
fn channel_ready_without_pending_change_does_nothing() {
    let mut state = NodeState::new();
    let event = NodeEvent::ChannelReady {
        channel_id: ChannelId { bytes: vec![1; 32] },
        pending_change_proof: None,
    };
    match handle_event(&mut state, Network::Regtest, &event) {
        EventOutcome::ChangeFinalize(None) => {}
        _ => panic!("wrong outcome"),
    }
}

#[test]
fn spendable_outputs_get_one_plan_each() {
    let mut state = NodeState::new();
    let event = NodeEvent::SpendableOutputs {
        outputs: vec![
            SpendableOutput {
                descriptor: SpendDescriptor::StaticPaymentOutput {
                    outpoint: outpoint(3, 1),
                    channel_value_satoshis: 90_000,
                    channel_keys_id: vec![4; 32],
                },
                transfer_proof: Some(proof_for(3)),
            },
            SpendableOutput {
                descriptor: SpendDescriptor::StaticPaymentOutput {
                    outpoint: outpoint(5, 0),
                    channel_value_satoshis: 10_000,
                    channel_keys_id: vec![6; 32],
                },
                transfer_proof: None,
            },
        ],
        destination_script: vec![0xee; 22],
    };
    match handle_event(&mut state, Network::Regtest, &event) {
        EventOutcome::ReclaimPlanned(plans) => {
            assert_eq!(plans.len(), 2);
            assert_eq!(plans[0].as_ref().unwrap().amount_rgb, 7);
            assert!(plans[1].is_err());
        }
        _ => panic!("wrong outcome"),
    }
}

#[test]
fn intercepts_are_decided_through_the_dispatcher() {
    let mut state = NodeState::new();
    state.whitelist.add_entry(WhitelistEntry {
        payment_hash: PaymentHash { bytes: vec![5; 32] },
        contract_id: ContractId { text: b"rgb1contract".to_vec() },
        terms: SwapType::SellAsset { amount_rgb: 1000, amount_msats: 5000 },
    });
    let event = NodeEvent::HtlcIntercepted {
        htlc: InterceptedHtlc {
            payment_hash: PaymentHash { bytes: vec![5; 32] },
            intercept_id: vec![1],
            inbound_amount_msat: 105_000,
            outbound_amount_msat: 100_000,
            inbound_rgb_amount: None,
            outbound_rgb_amount: Some(1000),
            prev_short_channel_id: 11,
            requested_next_hop_scid: 22,
            is_swap: true,
        },
        inbound_info: None,
        outbound_info: Some(ChannelAssetInfo {
            contract_id: ContractId { text: b"rgb1contract".to_vec() },
            local_asset_amount: 0,
            remote_asset_amount: 0,
        }),
    };
    match handle_event(&mut state, Network::Regtest, &event) {
        EventOutcome::HtlcDecided(HtlcDecision::Forward { next_hop_scid, amount_msat, amount_rgb }) => {
            assert_eq!(next_hop_scid, 22);
            assert_eq!(amount_msat, 100_000);
            assert_eq!(amount_rgb, Some(1000));
        }
        _ => panic!("wrong outcome"),
    }
    assert!(state.whitelist.entries.is_empty());
}

#[test]
fn consuming_a_proof_twice_settles_on_the_same_status() {
    let mut state = NodeState::new();
    state.ledger.mark_colored(outpoint(9, 0));
    let p = proof_for(3);
    let reveal = reveal_for(&p.txid.clone_id(), 1);
    let first = state.consume_proof(&p, &reveal);
    let second = state.consume_proof(&p, &reveal);
    assert_eq!(first, ValidityStatus::Valid);
    assert_eq!(first, second);
    // The ledger is exactly as it was.
    assert!(state.ledger.is_colored(&outpoint(9, 0)));
    assert_eq!(state.ledger.records.len(), 1);
}

#[test]
fn a_reveal_outside_the_proof_is_invalid_both_times() {
    let mut state = NodeState::new();
    let p = proof_for(3);
    let reveal = reveal_for(&p.txid.clone_id(), 9);
    let first = state.consume_proof(&p, &reveal);
    let second = state.consume_proof(&p, &reveal);
    assert_eq!(first, ValidityStatus::Invalid);
    assert_eq!(first, second);
}

#[test]
fn proof_file_keys_are_prefixed_hex() {
    let key = consignment_key(&vec![0x01, 0xff]);
    assert_eq!(String::from_utf8(key).unwrap(), "consignment_01ff");
}
