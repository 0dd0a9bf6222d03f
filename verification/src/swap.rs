//! Pre-agreed terms of an atomic Lightning-for-asset swap, and their
//! compact textual encoding.
//!
//! One side buys asset units for millisatoshis, the other sells them; a
//! `SwapType` fixes the exact exchange of one payment.  The terms travel
//! out-of-band as the text `amount:contract_id:side:price:payment_hash`,
//! with `amount_msats = amount * price`.

use vstd::prelude::*;

use crate::text::all_digits;
use crate::text::all_hex_digits;
use crate::text::append_bytes;
use crate::text::dec_text;
use crate::text::dec_to_text;
use crate::text::dec_value;
use crate::text::hex_bytes;
use crate::text::hex_decode;
use crate::text::hex_encode;
use crate::text::hex_text;
use crate::text::is_digit;
use crate::text::is_hex_digit;
use crate::text::lemma_dec_text_props;
use crate::text::lemma_hex_round_trip;
use crate::text::lemma_split_concat;
use crate::text::lemma_split_no_colon;
use crate::text::no_colon;
use crate::text::parse_dec;
use crate::text::split_colon;
use crate::text::split_fields;
use crate::text::COLON;
use crate::types::contract_text_check;
use crate::types::contract_text_ok;
use crate::types::is_contract_id_byte;
use crate::types::copy_bytes;
use crate::types::ContractId;
use crate::types::PaymentHash;

verus! {

/// The exact asset-for-millisatoshi exchange agreed for one payment hash.
#[derive(Clone, Copy, PartialEq, Eq, Structural, Debug)]
pub enum SwapType {
    BuyAsset { amount_rgb: u64, amount_msats: u64 },
    SellAsset { amount_rgb: u64, amount_msats: u64 },
}

impl SwapType {
    /// The same terms seen from the counterparty's side.
    pub open spec fn spec_opposite(self) -> SwapType {
        match self {
            SwapType::BuyAsset { amount_rgb, amount_msats } => SwapType::SellAsset {
                amount_rgb,
                amount_msats,
            },
            SwapType::SellAsset { amount_rgb, amount_msats } => SwapType::BuyAsset {
                amount_rgb,
                amount_msats,
            },
        }
    }

    pub open spec fn spec_is_buy(self) -> bool {
        self is BuyAsset
    }

    pub open spec fn spec_amount_rgb(self) -> u64 {
        match self {
            SwapType::BuyAsset { amount_rgb, .. } => amount_rgb,
            SwapType::SellAsset { amount_rgb, .. } => amount_rgb,
        }
    }

    pub open spec fn spec_amount_msats(self) -> u64 {
        match self {
            SwapType::BuyAsset { amount_msats, .. } => amount_msats,
            SwapType::SellAsset { amount_msats, .. } => amount_msats,
        }
    }

    pub fn opposite(self) -> (r: Self)
        ensures
            r == self.spec_opposite(),
    {
        match self {
            SwapType::BuyAsset { amount_rgb, amount_msats } => SwapType::SellAsset {
                amount_rgb,
                amount_msats,
            },
            SwapType::SellAsset { amount_rgb, amount_msats } => SwapType::BuyAsset {
                amount_rgb,
                amount_msats,
            },
        }
    }

    pub fn is_buy(&self) -> (r: bool)
        ensures
            r == self.spec_is_buy(),
    {
        matches!(self, SwapType::BuyAsset { .. })
    }

    pub fn amount_rgb(&self) -> (r: u64)
        ensures
            r == self.spec_amount_rgb(),
    {
        match self {
            SwapType::BuyAsset { amount_rgb, .. } => *amount_rgb,
            SwapType::SellAsset { amount_rgb, .. } => *amount_rgb,
        }
    }

    pub fn amount_msats(&self) -> (r: u64)
        ensures
            r == self.spec_amount_msats(),
    {
        match self {
            SwapType::BuyAsset { amount_msats, .. } => *amount_msats,
            SwapType::SellAsset { amount_msats, .. } => *amount_msats,
        }
    }

    /// The token that stands for this side in the textual encoding.
    pub fn side(&self) -> (r: &'static str)
        ensures
            self.spec_is_buy() ==> r@ == "buy"@,
            !self.spec_is_buy() ==> r@ == "sell"@,
    {
        match self {
            SwapType::BuyAsset { .. } => "buy",
            SwapType::SellAsset { .. } => "sell",
        }
    }
}

/// Parsed form of one whitelist entry: the asset contract, the agreed
/// terms, and the payment hash they are bound to.
#[derive(Debug)]
pub struct SwapString {
    pub asset_id: ContractId,
    pub swap_type: SwapType,
    pub payment_hash: PaymentHash,
}

impl SwapString {
    pub open spec fn wf(&self) -> bool {
        &&& self.asset_id.wf()
        &&& self.payment_hash.wf()
    }
}

/// Why a compact swap text failed to parse.
#[derive(Clone, Copy, PartialEq, Eq, Structural, Debug)]
pub enum SwapParseError {
    /// Not exactly five colon-separated fields.
    WrongFieldCount,
    /// Amount, contract id, price or payment hash unreadable, or the
    /// price puts the total out of range.
    UnparsableParts,
    /// The side token is neither `buy` nor `sell`.
    InvalidSwapType,
}

/// The bytes of the `buy` side token.
pub open spec fn buy_token() -> Seq<u8> {
    seq![0x62u8, 0x75u8, 0x79u8]
}

/// The bytes of the `sell` side token.
pub open spec fn sell_token() -> Seq<u8> {
    seq![0x73u8, 0x65u8, 0x6cu8, 0x6cu8]
}

pub open spec fn side_token(st: SwapType) -> Seq<u8> {
    if st.spec_is_buy() {
        buy_token()
    } else {
        sell_token()
    }
}

/// A readable decimal field: non-empty digits whose value fits.
pub open spec fn dec_field_ok(s: Seq<u8>) -> bool {
    s.len() > 0 && all_digits(s) && dec_value(s) <= u64::MAX
}

/// A readable payment-hash field: exactly 64 hex digits.
pub open spec fn hash_field_ok(s: Seq<u8>) -> bool {
    s.len() == 64 && all_hex_digits(s)
}

/// What parsing the compact text `amount:contract_id:side:price:hash`
/// gives: the contract id's text, the swap terms with
/// `amount_msats = amount * price`, and the payment hash bytes.
pub open spec fn swap_parse_spec(s: Seq<u8>) -> Result<
    (Seq<u8>, SwapType, Seq<u8>),
    SwapParseError,
> {
    let fs = split_colon(s);
    if fs.len() != 5 {
        Err(SwapParseError::WrongFieldCount)
    } else if !dec_field_ok(fs[0]) || !contract_text_ok(fs[1]) || !dec_field_ok(fs[3])
        || !hash_field_ok(fs[4]) {
        Err(SwapParseError::UnparsableParts)
    } else if fs[2] != buy_token() && fs[2] != sell_token() {
        Err(SwapParseError::InvalidSwapType)
    } else if dec_value(fs[0]) * dec_value(fs[3]) > u64::MAX {
        Err(SwapParseError::UnparsableParts)
    } else {
        let amount = dec_value(fs[0]) as u64;
        let msats = (dec_value(fs[0]) * dec_value(fs[3])) as u64;
        let st = if fs[2] == buy_token() {
            SwapType::BuyAsset { amount_rgb: amount, amount_msats: msats }
        } else {
            SwapType::SellAsset { amount_rgb: amount, amount_msats: msats }
        };
        Ok((fs[1], st, hex_bytes(fs[4])))
    }
}

/// The compact text of one whitelist entry, with the price written as
/// `amount_msats / amount_rgb`.
pub open spec fn swap_text(asset: Seq<u8>, st: SwapType, hash: Seq<u8>) -> Seq<u8> {
    let amount = st.spec_amount_rgb() as nat;
    let price = (st.spec_amount_msats() as nat) / (st.spec_amount_rgb() as nat);
    dec_text(amount) + seq![COLON] + asset + seq![COLON] + side_token(st) + seq![COLON] + dec_text(
        price,
    ) + seq![COLON] + hex_text(hash)
}

impl SwapString {
    /// Reads the compact form `amount:contract_id:side:price:payment_hash`.
    pub fn parse(s: &Vec<u8>) -> (r: Result<SwapString, SwapParseError>)
        ensures
            ({
                let t = swap_parse_spec(s@);
                match r {
                    Ok(v) => t is Ok && v.wf() && v.asset_id@ == t->Ok_0.0 && v.swap_type
                        == t->Ok_0.1 && v.payment_hash@ == t->Ok_0.2,
                    Err(e) => t is Err && e == t->Err_0,
                }
            }),
    {
        let fields = split_fields(s);
        proof {
            assert(fields@.map_values(|f: Vec<u8>| f@).len() == fields@.len());
        }
        if fields.len() != 5 {
            return Err(SwapParseError::WrongFieldCount);
        }
        let ghost fs = split_colon(s@);
        proof {
            assert(fs[0] == fields@[0]@ && fs[1] == fields@[1]@ && fs[2] == fields@[2]@ && fs[3]
                == fields@[3]@ && fs[4] == fields@[4]@);
        }
        let amount = parse_dec(&fields[0]);
        let cid_ok = contract_text_check(&fields[1]);
        let price = parse_dec(&fields[3]);
        let hash = hex_decode(&fields[4]);
        let hash_ok = match &hash {
            Some(h) => h.len() == 32,
            None => false,
        };
        proof {
            assert(hash_ok == hash_field_ok(fs[4]));
        }
        if amount.is_none() || !cid_ok || price.is_none() || !hash_ok {
            return Err(SwapParseError::UnparsableParts);
        }
        let amount = amount.unwrap();
        let price = price.unwrap();
        let f2 = &fields[2];
        let is_buy = f2.len() == 3 && f2[0] == 0x62 && f2[1] == 0x75 && f2[2] == 0x79;
        let is_sell = f2.len() == 4 && f2[0] == 0x73 && f2[1] == 0x65 && f2[2] == 0x6c && f2[3]
            == 0x6c;
        proof {
            assert(is_buy == (fs[2] =~= buy_token()));
            assert(is_sell == (fs[2] =~= sell_token()));
        }
        if !is_buy && !is_sell {
            return Err(SwapParseError::InvalidSwapType);
        }
        proof {
            assert((amount as nat) * (price as nat) <= (u64::MAX as nat) * (u64::MAX as nat))
                by (nonlinear_arith)
                requires
                    amount <= u64::MAX,
                    price <= u64::MAX,
            ;
        }
        let total_wide: u128 = amount as u128 * price as u128;
        if total_wide > u64::MAX as u128 {
            return Err(SwapParseError::UnparsableParts);
        }
        let total: u64 = total_wide as u64;
        let swap_type = if is_buy {
            SwapType::BuyAsset { amount_rgb: amount, amount_msats: total }
        } else {
            SwapType::SellAsset { amount_rgb: amount, amount_msats: total }
        };
        let asset_id = ContractId { text: copy_bytes(&fields[1]) };
        let payment_hash = PaymentHash { bytes: hash.unwrap() };
        Ok(SwapString { asset_id, swap_type, payment_hash })
    }

    /// Writes the compact form back.  Terms whose total is not a whole
    /// multiple of the asset amount have no price field and cannot be
    /// written.
    pub fn encode(&self) -> (r: Option<Vec<u8>>)
        ensures
            ({
                let ok = self.swap_type.spec_amount_rgb() > 0 && self.swap_type.spec_amount_msats()
                    % self.swap_type.spec_amount_rgb() == 0;
                match r {
                    Some(v) => ok && v@ == swap_text(self.asset_id@, self.swap_type,
                    self.payment_hash@),
                    None => !ok,
                }
            }),
    {
        let ar = self.swap_type.amount_rgb();
        let ms = self.swap_type.amount_msats();
        if ar == 0 || ms % ar != 0 {
            return None;
        }
        let price = ms / ar;
        let mut out = dec_to_text(ar);
        out.push(COLON);
        append_bytes(&mut out, &self.asset_id.text);
        out.push(COLON);
        match &self.swap_type {
            SwapType::BuyAsset { .. } => {
                out.push(0x62);
                out.push(0x75);
                out.push(0x79);
            },
            SwapType::SellAsset { .. } => {
                out.push(0x73);
                out.push(0x65);
                out.push(0x6c);
                out.push(0x6c);
            },
        }
        out.push(COLON);
        let price_text = dec_to_text(price);
        append_bytes(&mut out, &price_text);
        out.push(COLON);
        let hash_text = hex_encode(&self.payment_hash.bytes);
        append_bytes(&mut out, &hash_text);
        proof {
            assert(out@ =~= swap_text(self.asset_id@, self.swap_type, self.payment_hash@));
        }
        Some(out)
    }
}

/// Writing swap terms in their compact text form and parsing that text
/// back recovers the same contract id, the same terms and the same
/// payment hash.  The text form carries the price, so it exists exactly
/// for terms whose millisatoshi total is a whole multiple of the asset
/// amount.
pub proof fn lemma_swap_text_round_trip(asset: Seq<u8>, st: SwapType, hash: Seq<u8>)
    requires
        contract_text_ok(asset),
        hash.len() == 32,
        st.spec_amount_rgb() > 0,
        st.spec_amount_msats() % st.spec_amount_rgb() == 0,
    ensures
        swap_parse_spec(swap_text(asset, st, hash)) == Ok::<
            (Seq<u8>, SwapType, Seq<u8>),
            SwapParseError,
        >((asset, st, hash)),
{
    let ar = st.spec_amount_rgb() as nat;
    let msats = st.spec_amount_msats() as nat;
    let price = msats / ar;
    let a = dec_text(ar);
    let b = asset;
    let c = side_token(st);
    let d = dec_text(price);
    let e = hex_text(hash);
    lemma_dec_text_props(ar);
    lemma_dec_text_props(price);
    lemma_hex_round_trip(hash);
    let s = swap_text(asset, st, hash);
    let r1 = b + seq![COLON] + (c + seq![COLON] + (d + seq![COLON] + e));
    let r2 = c + seq![COLON] + (d + seq![COLON] + e);
    let r3 = d + seq![COLON] + e;
    assert(s =~= a + seq![COLON] + r1);
    assert(no_colon(a)) by {
        assert forall|i: int| 0 <= i < a.len() implies (#[trigger] a[i]) != COLON by {
            assert(is_digit(a[i]));
        }
    }
    assert(no_colon(b)) by {
        assert forall|i: int| 0 <= i < b.len() implies (#[trigger] b[i]) != COLON by {
            assert(is_contract_id_byte(b[i]));
        }
    }
    assert(no_colon(c));
    assert(no_colon(d)) by {
        assert forall|i: int| 0 <= i < d.len() implies (#[trigger] d[i]) != COLON by {
            assert(is_digit(d[i]));
        }
    }
    assert(no_colon(e)) by {
        assert forall|i: int| 0 <= i < e.len() implies (#[trigger] e[i]) != COLON by {
            assert(is_hex_digit(e[i]));
        }
    }
    lemma_split_concat(a, r1);
    assert(r1 =~= b + seq![COLON] + r2);
    lemma_split_concat(b, r2);
    assert(r2 =~= c + seq![COLON] + r3);
    lemma_split_concat(c, r3);
    lemma_split_concat(d, e);
    lemma_split_no_colon(e);
    let fs = split_colon(s);
    assert(fs =~~= seq![a, b, c, d, e]);
    assert(dec_field_ok(fs[0]));
    assert(price <= msats) by {
        vstd::arithmetic::div_mod::lemma_fundamental_div_mod(msats as int, ar as int);
        assert(msats == ar * price + msats % ar);
        assert(ar * price >= 1 * price) by (nonlinear_arith)
            requires
                ar >= 1,
                price >= 0,
        ;
    }
    assert(dec_field_ok(fs[3]));
    assert(hash_field_ok(fs[4]));
    assert(fs[2] == buy_token() || fs[2] == sell_token());
    assert(buy_token().len() == 3 && sell_token().len() == 4);
    assert(dec_value(fs[0]) * dec_value(fs[3]) == ar * price);
    assert(ar * price == msats - msats % ar) by {
        vstd::arithmetic::div_mod::lemma_fundamental_div_mod(msats as int, ar as int);
    }
    assert(ar * price == msats);
    if st.spec_is_buy() {
        assert(fs[2] == buy_token());
        assert(fs[2] != sell_token());
    } else {
        assert(fs[2] == sell_token());
        assert(fs[2] != buy_token());
    }
    assert(swap_parse_spec(s) == Ok::<(Seq<u8>, SwapType, Seq<u8>), SwapParseError>(
        (asset, st, hash),
    ));
}

} // verus!
