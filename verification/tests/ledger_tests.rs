use rgb_ln_core::ledger::ColoredUtxoLedger;
use rgb_ln_core::types::OutPoint;
use rgb_ln_core::types::Txid;

fn txid(fill: u8) -> Txid {
    Txid { bytes: vec![fill; 32] }
}

fn outpoint(fill: u8, vout: u32) -> OutPoint {
    OutPoint { txid: txid(fill), vout }
}

#[test]
fn fresh_ledger_is_empty() {
    let ledger = ColoredUtxoLedger::new();
    assert!(!ledger.is_colored(&outpoint(1, 0)));
    assert!(ledger.unspendable_set(&Vec::new()).is_empty());
}

#[test]
fn mark_and_query() {
    let mut ledger = ColoredUtxoLedger::new();
    ledger.mark_colored(outpoint(1, 0));
    ledger.mark_colored(outpoint(2, 3));
    assert!(ledger.is_colored(&outpoint(1, 0)));
    assert!(ledger.is_colored(&outpoint(2, 3)));
    assert!(!ledger.is_colored(&outpoint(1, 1)));
    assert!(!ledger.is_colored(&outpoint(3, 0)));
}

#[test]
fn marking_twice_keeps_one_line() {
    let mut ledger = ColoredUtxoLedger::new();
    ledger.mark_colored(outpoint(1, 0));
    ledger.mark_colored(outpoint(1, 0));
    assert!(ledger.is_colored(&outpoint(1, 0)));
    assert_eq!(ledger.records.len(), 1);
}

#[test]
fn unspendable_set_excludes_given_outpoints() {
    let mut ledger = ColoredUtxoLedger::new();
    ledger.mark_colored(outpoint(1, 0));
    ledger.mark_colored(outpoint(2, 0));
    ledger.mark_colored(outpoint(3, 0));
    let excluding = vec![outpoint(2, 0)];
    let unspendable = ledger.unspendable_set(&excluding);
    assert_eq!(unspendable.len(), 2);
    let has = |fill: u8| unspendable.iter().any(|p| p.txid.bytes == vec![fill; 32] && p.vout == 0);
    assert!(has(1));
    assert!(!has(2));
    assert!(has(3));
}
