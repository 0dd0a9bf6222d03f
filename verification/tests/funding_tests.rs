use rgb_ln_core::errors::SettlementError;
use rgb_ln_core::funding::funding_artifacts;
use rgb_ln_core::funding::plan_funding;
use rgb_ln_core::funding::relay_gate;
use rgb_ln_core::funding::select_asset_inputs;
use rgb_ln_core::funding::AssetOwnedValue;
use rgb_ln_core::ledger::ColoredUtxoLedger;
use rgb_ln_core::types::ChannelAssetInfo;
use rgb_ln_core::types::ChannelId;
use rgb_ln_core::types::ContractId;
use rgb_ln_core::types::Network;
use rgb_ln_core::types::OutPoint;
use rgb_ln_core::types::Txid;

fn txid(fill: u8) -> Txid {
    Txid { bytes: vec![fill; 32] }
}

fn outpoint(fill: u8, vout: u32) -> OutPoint {
    OutPoint { txid: txid(fill), vout }
}

/// A version-0 witness program of 20 bytes: a plain P2WPKH script.
fn p2wpkh_script() -> Vec<u8> {
    let mut s = vec![0x00, 0x14];
    s.extend(vec![0xabu8; 20]);
    s
}

/// A version-1 witness program of 32 bytes.
fn v1_script() -> Vec<u8> {
    let mut s = vec![0x51, 0x20];
    s.extend(vec![0xcdu8; 32]);
    s
}

fn asset_info(local: u64) -> ChannelAssetInfo {
    ChannelAssetInfo {
        contract_id: ContractId { text: b"rgb1contract".to_vec() },
        local_asset_amount: local,
        remote_asset_amount: 0,
    }
}

#[test]
fn plain_channel_excludes_every_colored_outpoint() {
    // A funding request for a non-colored channel: no allocations are
    // touched and the whole colored set becomes the negative filter.
    let mut ledger = ColoredUtxoLedger::new();
    ledger.mark_colored(outpoint(1, 0));
    ledger.mark_colored(outpoint(2, 1));
    let plan = plan_funding(
        &ledger,
        Network::Regtest,
        &p2wpkh_script(),
        100_000,
        &None,
        &Vec::new(),
    )
    .unwrap();
    assert_eq!(plan.channel_value_satoshis, 100_000);
    assert_eq!(plan.recipient_script, p2wpkh_script());
    assert!(plan.selected_inputs.is_empty());
    assert!(plan.colored.is_none());
    assert_eq!(plan.unspendable.len(), 2);
}

#[test]
fn colored_channel_selects_prefix_and_computes_change() {
    // local amount 500 against allocations of 300 and 400: both seals
    // are taken, the change is 200, the beneficiaries sit at outputs 0
    // and 1.
    let ledger = ColoredUtxoLedger::new();
    let owned = vec![
        AssetOwnedValue { seal: outpoint(7, 0), value: 300 },
        AssetOwnedValue { seal: outpoint(8, 1), value: 400 },
    ];
    let plan = plan_funding(
        &ledger,
        Network::Regtest,
        &p2wpkh_script(),
        30_010,
        &Some(asset_info(500)),
        &owned,
    )
    .unwrap();
    assert_eq!(plan.selected_inputs.len(), 2);
    assert_eq!(plan.selected_inputs[0].txid.bytes, vec![7u8; 32]);
    assert_eq!(plan.selected_inputs[1].txid.bytes, vec![8u8; 32]);
    let colored = plan.colored.unwrap();
    assert_eq!(colored.local_amount, 500);
    assert_eq!(colored.change_amount, 200);
    assert_eq!(colored.beneficiaries.len(), 2);
    assert_eq!(colored.beneficiaries[0].vout, 0);
    assert_eq!(colored.beneficiaries[0].amount, 500);
    assert_eq!(colored.beneficiaries[0].blinding, 777);
    assert_eq!(colored.beneficiaries[1].vout, 1);
    assert_eq!(colored.beneficiaries[1].amount, 200);
    assert_eq!(colored.beneficiaries[1].blinding, 777);
}

#[test]
fn selection_stops_once_target_is_covered() {
    let owned = vec![
        AssetOwnedValue { seal: outpoint(1, 0), value: 300 },
        AssetOwnedValue { seal: outpoint(2, 0), value: 400 },
        AssetOwnedValue { seal: outpoint(3, 0), value: 999 },
    ];
    let (sel, change) = select_asset_inputs(&owned, 700).unwrap();
    assert_eq!(sel.len(), 2);
    assert_eq!(change, 0);
    let (sel, change) = select_asset_inputs(&owned, 650).unwrap();
    assert_eq!(sel.len(), 2);
    assert_eq!(change, 50);
}

#[test]
fn insufficient_allocations_abort_funding() {
    let ledger = ColoredUtxoLedger::new();
    let owned = vec![AssetOwnedValue { seal: outpoint(7, 0), value: 100 }];
    let err = plan_funding(
        &ledger,
        Network::Regtest,
        &p2wpkh_script(),
        30_010,
        &Some(asset_info(500)),
        &owned,
    )
    .unwrap_err();
    assert_eq!(err, SettlementError::InsufficientAssetFunds);
}

#[test]
fn selected_inputs_never_meet_the_unspendable_filter() {
    // The seals of this contract are colored too; selecting them must
    // pull them out of the filter while every other colored outpoint
    // stays in.
    let mut ledger = ColoredUtxoLedger::new();
    ledger.mark_colored(outpoint(7, 0));
    ledger.mark_colored(outpoint(8, 1));
    ledger.mark_colored(outpoint(9, 0));
    let owned = vec![
        AssetOwnedValue { seal: outpoint(7, 0), value: 300 },
        AssetOwnedValue { seal: outpoint(8, 1), value: 400 },
    ];
    let plan = plan_funding(
        &ledger,
        Network::Regtest,
        &p2wpkh_script(),
        30_010,
        &Some(asset_info(500)),
        &owned,
    )
    .unwrap();
    assert_eq!(plan.unspendable.len(), 1);
    assert_eq!(plan.unspendable[0].txid.bytes, vec![9u8; 32]);
    for sel in plan.selected_inputs.iter() {
        assert!(!plan
            .unspendable
            .iter()
            .any(|u| u.txid.bytes == sel.txid.bytes && u.vout == sel.vout));
    }
}

#[test]
fn script_round_trips_through_the_witness_program_form() {
    let ledger = ColoredUtxoLedger::new();
    for script in [p2wpkh_script(), v1_script()] {
        let plan = plan_funding(&ledger, Network::Testnet, &script, 1_000, &None, &Vec::new())
            .unwrap();
        assert_eq!(plan.recipient_script, script);
    }
}

#[test]
fn non_segwit_script_is_refused() {
    let ledger = ColoredUtxoLedger::new();
    // A P2PKH-shaped script is not a witness program.
    let mut script = vec![0x76, 0xa9, 0x14];
    script.extend(vec![0u8; 20]);
    script.extend(vec![0x88, 0xac]);
    let err = plan_funding(&ledger, Network::Regtest, &script, 1_000, &None, &Vec::new())
        .unwrap_err();
    assert_eq!(err, SettlementError::WalletOperationFailed);
}

#[test]
fn artifacts_with_change_mark_output_two_and_keep_two_keys() {
    let mut ledger = ColoredUtxoLedger::new();
    let owned = vec![
        AssetOwnedValue { seal: outpoint(7, 0), value: 300 },
        AssetOwnedValue { seal: outpoint(8, 1), value: 400 },
    ];
    let plan = plan_funding(
        &ledger,
        Network::Regtest,
        &p2wpkh_script(),
        30_010,
        &Some(asset_info(500)),
        &owned,
    )
    .unwrap();
    let funding_txid = txid(0xaa);
    let channel_id = ChannelId { bytes: vec![0xbb; 32] };
    let artifacts = funding_artifacts(&mut ledger, &plan, &funding_txid, &channel_id).unwrap();
    assert_eq!(artifacts.proof_keys.len(), 2);
    let key0 = String::from_utf8(artifacts.proof_keys[0].clone()).unwrap();
    let key1 = String::from_utf8(artifacts.proof_keys[1].clone()).unwrap();
    assert_eq!(key0, format!("consignment_{}", "aa".repeat(32)));
    assert_eq!(key1, format!("consignment_{}", "bb".repeat(32)));
    assert!(ledger.is_colored(&outpoint(0xaa, 2)));
    assert_eq!(artifacts.relay_reveal.blinding_factor, 777);
    assert_eq!(artifacts.relay_reveal.outpoint.txid.bytes, vec![0xaa; 32]);
    assert_eq!(artifacts.relay_reveal.outpoint.vout, 0);
    assert!(artifacts.relay_reveal.witness_vout);
}

#[test]
fn artifacts_without_change_keep_one_key_and_the_ledger() {
    let mut ledger = ColoredUtxoLedger::new();
    let owned = vec![AssetOwnedValue { seal: outpoint(7, 0), value: 500 }];
    let plan = plan_funding(
        &ledger,
        Network::Regtest,
        &p2wpkh_script(),
        30_010,
        &Some(asset_info(500)),
        &owned,
    )
    .unwrap();
    let funding_txid = txid(0xaa);
    let channel_id = ChannelId { bytes: vec![0xbb; 32] };
    let artifacts = funding_artifacts(&mut ledger, &plan, &funding_txid, &channel_id).unwrap();
    assert_eq!(artifacts.proof_keys.len(), 1);
    assert!(!ledger.is_colored(&outpoint(0xaa, 2)));
}

#[test]
fn plain_funding_leaves_no_artifacts() {
    let mut ledger = ColoredUtxoLedger::new();
    let plan = plan_funding(
        &ledger,
        Network::Regtest,
        &p2wpkh_script(),
        1_000,
        &None,
        &Vec::new(),
    )
    .unwrap();
    let artifacts = funding_artifacts(
        &mut ledger,
        &plan,
        &txid(0xaa),
        &ChannelId { bytes: vec![0xbb; 32] },
    );
    assert!(artifacts.is_none());
}

#[test]
fn relay_gate_blocks_unaccepted_proofs() {
    assert!(relay_gate(true).is_ok());
    assert_eq!(relay_gate(false).unwrap_err(), SettlementError::ProofRelayFailed);
}
