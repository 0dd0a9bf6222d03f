use rgb_ln_core::swap::SwapParseError;
use rgb_ln_core::swap::SwapString;
use rgb_ln_core::swap::SwapType;
use rgb_ln_core::types::ContractId;
use rgb_ln_core::types::PaymentHash;

fn sample_hash() -> Vec<u8> {
    let mut h = Vec::new();
    for i in 0..32u8 {
        h.push(i);
    }
    h
}

fn sample_hash_hex() -> String {
    let mut s = String::new();
    for i in 0..32u8 {
        s.push_str(&format!("{:02x}", i));
    }
    s
}

#[test]
fn swap_type_opposite_swaps_sides() {
    let buy = SwapType::BuyAsset { amount_rgb: 10, amount_msats: 50 };
    assert_eq!(buy.opposite(), SwapType::SellAsset { amount_rgb: 10, amount_msats: 50 });
    let sell = SwapType::SellAsset { amount_rgb: 7, amount_msats: 21 };
    assert_eq!(sell.opposite(), SwapType::BuyAsset { amount_rgb: 7, amount_msats: 21 });
}

#[test]
fn swap_type_accessors() {
    let buy = SwapType::BuyAsset { amount_rgb: 10, amount_msats: 50 };
    let sell = SwapType::SellAsset { amount_rgb: 7, amount_msats: 21 };
    assert!(buy.is_buy());
    assert!(!sell.is_buy());
    assert_eq!(buy.amount_msats(), 50);
    assert_eq!(sell.amount_msats(), 21);
    assert_eq!(buy.amount_rgb(), 10);
    assert_eq!(sell.amount_rgb(), 7);
    assert_eq!(buy.side(), "buy");
    assert_eq!(sell.side(), "sell");
}

#[test]
fn parse_buy_string() {
    let text = format!("100:rgb1contract:buy:5:{}", sample_hash_hex());
    let parsed = SwapString::parse(&text.as_bytes().to_vec()).unwrap();
    assert_eq!(parsed.asset_id.text, b"rgb1contract".to_vec());
    assert_eq!(parsed.swap_type, SwapType::BuyAsset { amount_rgb: 100, amount_msats: 500 });
    assert_eq!(parsed.payment_hash.bytes, sample_hash());
}

#[test]
fn parse_sell_string() {
    let text = format!("1000:rgb1contract:sell:5:{}", sample_hash_hex());
    let parsed = SwapString::parse(&text.as_bytes().to_vec()).unwrap();
    assert_eq!(parsed.swap_type, SwapType::SellAsset { amount_rgb: 1000, amount_msats: 5000 });
}

#[test]
fn parse_accepts_uppercase_hash() {
    let text = format!("1:c:buy:1:{}", sample_hash_hex().to_uppercase());
    let parsed = SwapString::parse(&text.as_bytes().to_vec()).unwrap();
    assert_eq!(parsed.payment_hash.bytes, sample_hash());
}

#[test]
fn parse_wrong_field_count() {
    for text in ["", "1:c:buy:1", "1:c:buy:1:aa:extra", "1:c"] {
        let r = SwapString::parse(&text.as_bytes().to_vec());
        assert_eq!(r.unwrap_err(), SwapParseError::WrongFieldCount, "{}", text);
    }
}

#[test]
fn parse_unparsable_parts() {
    let hex = sample_hash_hex();
    let bad = [
        format!("1x:c:buy:1:{}", hex),      // amount not a number
        format!(":c:buy:1:{}", hex),        // empty amount
        format!("1::buy:1:{}", hex),        // empty contract id
        format!("1:c c:buy:1:{}", hex),     // blank inside contract id
        format!("1:c:buy:z:{}", hex),       // price not a number
        format!("1:c:buy:1:{}", &hex[..62]),  // hash too short
        format!("1:c:buy:1:zz{}", &hex[..62]),  // hash not hex
        format!("99999999999999999999:c:buy:1:{}", hex),  // amount too large
        format!("4294967296:c:buy:4294967296:{}", hex),  // total overflows
    ];
    for text in bad.iter() {
        let r = SwapString::parse(&text.as_bytes().to_vec());
        assert_eq!(r.unwrap_err(), SwapParseError::UnparsableParts, "{}", text);
    }
}

#[test]
fn parse_invalid_side_token() {
    let hex = sample_hash_hex();
    for side in ["hold", "BUY", "sel", "buys"] {
        let text = format!("1:c:{}:1:{}", side, hex);
        let r = SwapString::parse(&text.as_bytes().to_vec());
        assert_eq!(r.unwrap_err(), SwapParseError::InvalidSwapType, "{}", text);
    }
}

#[test]
fn encode_then_parse_round_trip() {
    let original = SwapString {
        asset_id: ContractId { text: b"rgb1qxz04aviation".to_vec() },
        swap_type: SwapType::SellAsset { amount_rgb: 1000, amount_msats: 5000 },
        payment_hash: PaymentHash { bytes: sample_hash() },
    };
    let encoded = original.encode().unwrap();
    assert_eq!(
        String::from_utf8(encoded.clone()).unwrap(),
        format!("1000:rgb1qxz04aviation:sell:5:{}", sample_hash_hex())
    );
    let parsed = SwapString::parse(&encoded).unwrap();
    assert_eq!(parsed.asset_id.text, original.asset_id.text);
    assert_eq!(parsed.swap_type, original.swap_type);
    assert_eq!(parsed.payment_hash.bytes, original.payment_hash.bytes);
}

#[test]
fn encode_buy_round_trip() {
    let original = SwapString {
        asset_id: ContractId { text: b"x".to_vec() },
        swap_type: SwapType::BuyAsset { amount_rgb: 3, amount_msats: 21 },
        payment_hash: PaymentHash { bytes: sample_hash() },
    };
    let encoded = original.encode().unwrap();
    let parsed = SwapString::parse(&encoded).unwrap();
    assert_eq!(parsed.swap_type, original.swap_type);
}

#[test]
fn encode_rejects_non_divisible_terms() {
    let s = SwapString {
        asset_id: ContractId { text: b"c".to_vec() },
        swap_type: SwapType::SellAsset { amount_rgb: 3, amount_msats: 10 },
        payment_hash: PaymentHash { bytes: sample_hash() },
    };
    assert!(s.encode().is_none());
    let z = SwapString {
        asset_id: ContractId { text: b"c".to_vec() },
        swap_type: SwapType::SellAsset { amount_rgb: 0, amount_msats: 10 },
        payment_hash: PaymentHash { bytes: sample_hash() },
    };
    assert!(z.encode().is_none());
}
