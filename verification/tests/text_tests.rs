use rgb_ln_core::text::dec_to_text;
use rgb_ln_core::text::hex_decode;
use rgb_ln_core::text::hex_encode;
use rgb_ln_core::text::parse_dec;
use rgb_ln_core::text::split_fields;

#[test]
fn decimal_text_is_canonical() {
    assert_eq!(dec_to_text(0), b"0".to_vec());
    assert_eq!(dec_to_text(7), b"7".to_vec());
    assert_eq!(dec_to_text(10), b"10".to_vec());
    assert_eq!(dec_to_text(305), b"305".to_vec());
    assert_eq!(dec_to_text(u64::MAX), b"18446744073709551615".to_vec());
}

#[test]
fn decimal_parse_round_trips() {
    for n in [0u64, 1, 9, 10, 99, 100, 12345, u64::MAX] {
        assert_eq!(parse_dec(&dec_to_text(n)), Some(n));
    }
}

#[test]
fn decimal_parse_rejects_junk() {
    assert_eq!(parse_dec(&b"".to_vec()), None);
    assert_eq!(parse_dec(&b"12a".to_vec()), None);
    assert_eq!(parse_dec(&b"-1".to_vec()), None);
    assert_eq!(parse_dec(&b"+1".to_vec()), None);
    assert_eq!(parse_dec(&b"18446744073709551616".to_vec()), None);
    assert_eq!(parse_dec(&b"007".to_vec()), Some(7));
}

#[test]
fn hex_round_trips() {
    let bytes = vec![0x00, 0x01, 0xab, 0xff, 0x10];
    let text = hex_encode(&bytes);
    assert_eq!(text, b"0001abff10".to_vec());
    assert_eq!(hex_decode(&text), Some(bytes));
}

#[test]
fn hex_decode_accepts_both_cases_and_rejects_junk() {
    assert_eq!(hex_decode(&b"AbFf".to_vec()), Some(vec![0xab, 0xff]));
    assert_eq!(hex_decode(&b"abc".to_vec()), None);
    assert_eq!(hex_decode(&b"zz".to_vec()), None);
    assert_eq!(hex_decode(&b"".to_vec()), Some(Vec::new()));
}

#[test]
fn splitting_keeps_empty_fields() {
    let fields = split_fields(&b"a:bc::d".to_vec());
    let texts: Vec<Vec<u8>> = fields;
    assert_eq!(
        texts,
        vec![b"a".to_vec(), b"bc".to_vec(), b"".to_vec(), b"d".to_vec()]
    );
    assert_eq!(split_fields(&b"".to_vec()), vec![b"".to_vec()]);
    assert_eq!(split_fields(&b":".to_vec()), vec![b"".to_vec(), b"".to_vec()]);
}
