//! The atomic swap coordinator.
//!
//! An intercepted HTLC stands for one leg of a Lightning-for-asset
//! swap.  The coordinator validates it against the whitelist of
//! pre-agreed terms for its payment hash and either forwards it with
//! the amounts the event carries — never recomputed — or fails it.  A
//! matching intercept consumes its whitelist entry, so a second
//! intercept for the same hash lands in the absent branch whatever its
//! terms.

use vstd::prelude::*;

use crate::swap::SwapType;
use crate::types::bytes_eq;
use crate::types::ChannelAssetInfo;
use crate::types::ContractId;
use crate::types::PaymentHash;

verus! {

/// One pre-agreed trade: the terms bound to a payment hash.
#[derive(Debug)]
pub struct WhitelistEntry {
    pub payment_hash: PaymentHash,
    pub contract_id: ContractId,
    pub terms: SwapType,
}

impl View for WhitelistEntry {
    type V = (Seq<u8>, Seq<u8>, SwapType);

    open spec fn view(&self) -> (Seq<u8>, Seq<u8>, SwapType) {
        (self.payment_hash@, self.contract_id@, self.terms)
    }
}

impl WhitelistEntry {
    pub open spec fn wf(&self) -> bool {
        &&& self.payment_hash.wf()
        &&& self.contract_id.wf()
    }
}

/// The single-use registry of pre-agreed swap terms, keyed by payment
/// hash.
#[derive(Debug)]
pub struct SwapWhitelist {
    pub entries: Vec<WhitelistEntry>,
}

impl View for SwapWhitelist {
    type V = Seq<(Seq<u8>, Seq<u8>, SwapType)>;

    open spec fn view(&self) -> Seq<(Seq<u8>, Seq<u8>, SwapType)> {
        self.entries@.map_values(|e: WhitelistEntry| e@)
    }
}

impl SwapWhitelist {
    /// Each payment hash has at most one entry.
    pub open spec fn wf(&self) -> bool {
        &&& forall|i: int, j: int|
            0 <= i < j < self@.len() ==> (#[trigger] self@[i]).0 != (#[trigger] self@[j]).0
        &&& forall|i: int| 0 <= i < self.entries@.len() ==> (#[trigger] self.entries@[i]).wf()
    }

    pub open spec fn has_entry(&self, h: Seq<u8>) -> bool {
        exists|i: int| 0 <= i < self@.len() && (#[trigger] self@[i]).0 == h
    }

    pub open spec fn entry_index(&self, h: Seq<u8>) -> int {
        choose|i: int| 0 <= i < self@.len() && (#[trigger] self@[i]).0 == h
    }

    /// The whitelisted contract for `h`; meaningful only when present.
    pub open spec fn entry_contract(&self, h: Seq<u8>) -> Seq<u8> {
        self@[self.entry_index(h)].1
    }

    /// The whitelisted terms for `h`; meaningful only when present.
    pub open spec fn entry_terms(&self, h: Seq<u8>) -> SwapType {
        self@[self.entry_index(h)].2
    }

    pub proof fn lemma_entry_at(&self, h: Seq<u8>, i: int)
        requires
            self.wf(),
            0 <= i < self@.len(),
            self@[i].0 == h,
        ensures
            self.has_entry(h),
            self.entry_index(h) == i,
            self.entry_contract(h) == self@[i].1,
            self.entry_terms(h) == self@[i].2,
    {
        assert((#[trigger] self@[i]).0 == h);
        let j = self.entry_index(h);
        if j != i {
            if i < j {
                assert(self@[i].0 != self@[j].0);
            } else {
                assert(self@[j].0 != self@[i].0);
            }
        }
    }

    pub fn new() -> (r: SwapWhitelist)
        ensures
            r.wf(),
            r@.len() == 0,
    {
        SwapWhitelist { entries: Vec::new() }
    }

    /// The index of the entry for `h`, if one exists.
    fn find_index(&self, h: &PaymentHash) -> (r: Option<usize>)
        requires
            self.wf(),
        ensures
            ({
                match r {
                    Some(i) => i < self@.len() && self@[i as int].0 == h@ && self.has_entry(h@),
                    None => !self.has_entry(h@),
                }
            }),
    {
        let n = self.entries.len();
        let mut i: usize = 0;
        while i < n
            invariant
                self.wf(),
                n == self.entries@.len(),
                i <= n,
                forall|j: int| 0 <= j < i ==> (#[trigger] self@[j]).0 != h@,
            decreases n - i,
        {
            if bytes_eq(&self.entries[i].payment_hash.bytes, &h.bytes) {
                proof {
                    assert((#[trigger] self@[i as int]).0 == h@);
                }
                return Some(i);
            }
            proof {
                assert(self@[i as int].0 != h@);
            }
            i += 1;
        }
        None
    }

    /// Removes and returns the entry for `h`: the single-use consume.
    /// Every other entry stays exactly as it was.
    pub fn take_entry(&mut self, h: &PaymentHash) -> (r: Option<WhitelistEntry>)
        requires
            old(self).wf(),
        ensures
            final(self).wf(),
            ({
                match r {
                    Some(e) => {
                        &&& old(self).has_entry(h@)
                        &&& e.wf()
                        &&& e@.0 == h@
                        &&& e@.1 == old(self).entry_contract(h@)
                        &&& e@.2 == old(self).entry_terms(h@)
                        &&& !final(self).has_entry(h@)
                    },
                    None => !old(self).has_entry(h@) && final(self)@ == old(self)@,
                }
            }),
            forall|h2: Seq<u8>|
                h2 != h@ ==> final(self).has_entry(h2) == old(self).has_entry(h2),
            forall|h2: Seq<u8>|
                (h2 != h@ && old(self).has_entry(h2)) ==> (final(self).entry_contract(h2) == old(self).entry_contract(h2) && final(self).entry_terms(h2) == old(self).entry_terms(h2)),
    {
        let found = self.find_index(h);
        match found {
            None => None,
            Some(i) => {
                let ghost old_view = self@;
                proof {
                    old(self).lemma_entry_at(h@, i as int);
                }
                let e = self.entries.remove(i);
                proof {
                    assert(self@ =~= old_view.remove(i as int));
                    assert(e@ == old_view[i as int]);
                    let iv = i as int;
                    assert forall|j: int| 0 <= j < self@.len() implies (#[trigger] self@[j]).0
                        != h@ by {
                        if j < iv {
                            assert(old_view[j].0 != old_view[iv].0);
                        } else {
                            assert(self@[j] == old_view[j + 1]);
                            assert(old_view[iv].0 != old_view[j + 1].0);
                        }
                    }
                    assert forall|j1: int, j2: int|
                        0 <= j1 < j2 < self@.len() implies (#[trigger] self@[j1]).0 != (
                    #[trigger] self@[j2]).0 by {
                        let o1 = if j1 < iv {
                            j1
                        } else {
                            j1 + 1
                        };
                        let o2 = if j2 < iv {
                            j2
                        } else {
                            j2 + 1
                        };
                        assert(self@[j1] == old_view[o1]);
                        assert(self@[j2] == old_view[o2]);
                        assert(old_view[o1].0 != old_view[o2].0);
                    }
                    assert forall|h2: Seq<u8>| h2 != h@ implies final(self).has_entry(h2) == old(self).has_entry(h2) by {
                        if self.has_entry(h2) {
                            let j = choose|j: int|
                                0 <= j < self@.len() && (#[trigger] self@[j]).0 == h2;
                            let o = if j < iv {
                                j
                            } else {
                                j + 1
                            };
                            assert((#[trigger] old_view[o]).0 == h2);
                        }
                        if old(self).has_entry(h2) {
                            let j = choose|j: int|
                                0 <= j < old_view.len() && (#[trigger] old_view[j]).0 == h2;
                            assert(j != iv);
                            let n = if j < iv {
                                j
                            } else {
                                j - 1
                            };
                            assert((#[trigger] self@[n]).0 == h2);
                        }
                    }
                    assert forall|h2: Seq<u8>|
                        h2 != h@ && old(self).has_entry(h2) implies (final(self).entry_contract(
                        h2,
                    ) == old(self).entry_contract(h2) && final(self).entry_terms(h2) == old(self).entry_terms(h2)) by {
                        let j = choose|j: int|
                            0 <= j < old_view.len() && (#[trigger] old_view[j]).0 == h2;
                        old(self).lemma_entry_at(h2, j);
                        assert(j != iv);
                        let n = if j < iv {
                            j
                        } else {
                            j - 1
                        };
                        assert(self@[n] == old_view[j]);
                        self.lemma_entry_at(h2, n);
                    }
                }
                Some(e)
            },
        }
    }

    /// Registers terms for a payment hash, replacing any earlier entry
    /// for the same hash.  Registration itself belongs to the
    /// out-of-band negotiation step; the coordinator only consumes.
    pub fn add_entry(&mut self, entry: WhitelistEntry)
        requires
            old(self).wf(),
            entry.wf(),
        ensures
            final(self).wf(),
            final(self).has_entry(entry.payment_hash@),
            final(self).entry_contract(entry.payment_hash@) == entry.contract_id@,
            final(self).entry_terms(entry.payment_hash@) == entry.terms,
            forall|h2: Seq<u8>|
                h2 != entry.payment_hash@ ==> final(self).has_entry(h2) == old(self).has_entry(
                    h2,
                ),
            forall|h2: Seq<u8>|
                (h2 != entry.payment_hash@ && old(self).has_entry(h2)) ==> (final(self).entry_contract(h2) == old(self).entry_contract(h2) && final(self).entry_terms(
                    h2,
                ) == old(self).entry_terms(h2)),
    {
        let hash_copy = entry.payment_hash.clone_hash();
        let _dropped = self.take_entry(&hash_copy);
        let ghost mid = *self;
        let ghost old_view = self@;
        self.entries.push(entry);
        proof {
            assert(self@ =~= old_view.push(entry@));
            let n = old_view.len() as int;
            assert(self@[n].0 == entry.payment_hash@);
            self.lemma_entry_at(entry.payment_hash@, n);
            assert forall|h2: Seq<u8>| h2 != entry.payment_hash@ implies final(self).has_entry(
                h2,
            ) == mid.has_entry(h2) by {
                if self.has_entry(h2) {
                    let j = choose|j: int| 0 <= j < self@.len() && (#[trigger] self@[j]).0 == h2;
                    assert(j < n);
                    assert((#[trigger] old_view[j]).0 == h2);
                }
                if mid.has_entry(h2) {
                    let j = choose|j: int|
                        0 <= j < old_view.len() && (#[trigger] old_view[j]).0 == h2;
                    assert((#[trigger] self@[j]).0 == h2);
                }
            }
            assert forall|h2: Seq<u8>|
                h2 != entry.payment_hash@ && mid.has_entry(h2) implies (final(self).entry_contract(h2) == mid.entry_contract(h2) && final(self).entry_terms(h2)
                == mid.entry_terms(h2)) by {
                let j = choose|j: int| 0 <= j < old_view.len() && (#[trigger] old_view[j]).0 == h2;
                mid.lemma_entry_at(h2, j);
                assert((#[trigger] self@[j]).0 == h2);
                self.lemma_entry_at(h2, j);
            }
        }
    }
}

/// One intercepted HTLC as the engine reports it, with the amounts of
/// both legs and the hop it asks to forward to.
#[derive(Debug)]
pub struct InterceptedHtlc {
    pub payment_hash: PaymentHash,
    pub intercept_id: Vec<u8>,
    pub inbound_amount_msat: u64,
    pub outbound_amount_msat: u64,
    pub inbound_rgb_amount: Option<u64>,
    pub outbound_rgb_amount: Option<u64>,
    pub prev_short_channel_id: u64,
    pub requested_next_hop_scid: u64,
    pub is_swap: bool,
}

/// What the coordinator tells the engine to do with one intercept.
#[derive(Clone, Copy, PartialEq, Eq, Structural, Debug)]
pub enum HtlcDecision {
    /// Forward to the requested hop with exactly the amounts the event
    /// carried.
    Forward { next_hop_scid: u64, amount_msat: u64, amount_rgb: Option<u64> },
    /// Fail the intercepted HTLC.
    Fail,
}

/// The net millisatoshi margin between two legs, saturating at zero.
pub open spec fn msat_margin(a: u64, b: u64) -> u64 {
    if a >= b {
        (a - b) as u64
    } else {
        0u64
    }
}

/// Whether an intercept matches whitelisted terms.  Buying assets, the
/// asset arrives on the inbound leg of the whitelisted contract and the
/// outbound leg is pure sats, with the net paid margin equal to the
/// agreed total; selling is the mirror image.
pub open spec fn swap_leg_matches(
    contract: Seq<u8>,
    terms: SwapType,
    e: InterceptedHtlc,
    inbound_info: Option<ChannelAssetInfo>,
    outbound_info: Option<ChannelAssetInfo>,
) -> bool {
    match terms {
        SwapType::BuyAsset { amount_rgb, amount_msats } => {
            &&& e.inbound_rgb_amount == Some(amount_rgb)
            &&& (inbound_info matches Some(ii) && ii.contract_id@ == contract)
            &&& msat_margin(e.outbound_amount_msat, e.inbound_amount_msat) == amount_msats
            &&& outbound_info is None
        },
        SwapType::SellAsset { amount_rgb, amount_msats } => {
            &&& e.outbound_rgb_amount == Some(amount_rgb)
            &&& (outbound_info matches Some(oi) && oi.contract_id@ == contract)
            &&& msat_margin(e.inbound_amount_msat, e.outbound_amount_msat) == amount_msats
            &&& inbound_info is None
        },
    }
}

/// The decision the coordinator reaches for one intercept against one
/// whitelist state.
pub open spec fn intercept_decision(
    w: SwapWhitelist,
    e: InterceptedHtlc,
    inbound_info: Option<ChannelAssetInfo>,
    outbound_info: Option<ChannelAssetInfo>,
) -> HtlcDecision {
    if !e.is_swap {
        HtlcDecision::Fail
    } else if !w.has_entry(e.payment_hash@) {
        HtlcDecision::Fail
    } else if swap_leg_matches(
        w.entry_contract(e.payment_hash@),
        w.entry_terms(e.payment_hash@),
        e,
        inbound_info,
        outbound_info,
    ) {
        HtlcDecision::Forward {
            next_hop_scid: e.requested_next_hop_scid,
            amount_msat: e.outbound_amount_msat,
            amount_rgb: e.outbound_rgb_amount,
        }
    } else {
        HtlcDecision::Fail
    }
}

/// Handles one intercepted HTLC: validates it against the whitelist and
/// consumes the entry exactly when the intercept is forwarded.  On any
/// failure path the whitelist is untouched.
pub fn handle_intercepted_htlc(
    whitelist: &mut SwapWhitelist,
    e: &InterceptedHtlc,
    inbound_info: &Option<ChannelAssetInfo>,
    outbound_info: &Option<ChannelAssetInfo>,
) -> (d: HtlcDecision)
    requires
        old(whitelist).wf(),
    ensures
        final(whitelist).wf(),
        d == intercept_decision(*old(whitelist), *e, *inbound_info, *outbound_info),
        d is Forward ==> !final(whitelist).has_entry(e.payment_hash@),
        !(d is Forward) ==> final(whitelist)@ == old(whitelist)@,
        forall|h2: Seq<u8>|
            h2 != e.payment_hash@ ==> final(whitelist).has_entry(h2) == old(whitelist).has_entry(
                h2,
            ),
        forall|h2: Seq<u8>|
            (h2 != e.payment_hash@ && old(whitelist).has_entry(h2)) ==> (final(whitelist).entry_contract(h2) == old(whitelist).entry_contract(h2) && final(whitelist).entry_terms(h2) == old(whitelist).entry_terms(h2)),
{
    if !e.is_swap {
        return HtlcDecision::Fail;
    }
    let found = whitelist.find_index(&e.payment_hash);
    let i = match found {
        None => {
            return HtlcDecision::Fail;
        },
        Some(i) => i,
    };
    proof {
        whitelist.lemma_entry_at(e.payment_hash@, i as int);
    }
    let entry = &whitelist.entries[i];
    let ghost contract = whitelist.entry_contract(e.payment_hash@);
    let ghost terms = whitelist.entry_terms(e.payment_hash@);
    proof {
        assert(entry@ == whitelist@[i as int]);
        assert(entry.contract_id@ == contract && entry.terms == terms);
    }
    let matches_entry: bool = match entry.terms {
        SwapType::BuyAsset { amount_rgb, amount_msats } => {
            let rgb_ok = match e.inbound_rgb_amount {
                Some(v) => v == amount_rgb,
                None => false,
            };
            let contract_ok = match inbound_info {
                Some(ii) => bytes_eq(&ii.contract_id.text, &entry.contract_id.text),
                None => false,
            };
            let margin = if e.outbound_amount_msat >= e.inbound_amount_msat {
                e.outbound_amount_msat - e.inbound_amount_msat
            } else {
                0
            };
            let outbound_plain = match outbound_info {
                Some(_) => false,
                None => true,
            };
            rgb_ok && contract_ok && margin == amount_msats && outbound_plain
        },
        SwapType::SellAsset { amount_rgb, amount_msats } => {
            let rgb_ok = match e.outbound_rgb_amount {
                Some(v) => v == amount_rgb,
                None => false,
            };
            let contract_ok = match outbound_info {
                Some(oi) => bytes_eq(&oi.contract_id.text, &entry.contract_id.text),
                None => false,
            };
            let margin = if e.inbound_amount_msat >= e.outbound_amount_msat {
                e.inbound_amount_msat - e.outbound_amount_msat
            } else {
                0
            };
            let inbound_plain = match inbound_info {
                Some(_) => false,
                None => true,
            };
            rgb_ok && contract_ok && margin == amount_msats && inbound_plain
        },
    };
    proof {
        assert(matches_entry == swap_leg_matches(contract, terms, *e, *inbound_info,
        *outbound_info));
    }
    if !matches_entry {
        return HtlcDecision::Fail;
    }
    let _consumed = whitelist.take_entry(&e.payment_hash);
    HtlcDecision::Forward {
        next_hop_scid: e.requested_next_hop_scid,
        amount_msat: e.outbound_amount_msat,
        amount_rgb: e.outbound_rgb_amount,
    }
}

/// Once a matching intercept has consumed its whitelist entry, any
/// later intercept carrying the same payment hash finds no entry and is
/// failed, whatever its terms, amounts or channels: the handler's
/// contract says a forwarded intercept leaves the hash absent, and an
/// absent hash decides every intercept to a failure.
pub proof fn lemma_consumed_hash_rejected(
    w0: SwapWhitelist,
    w1: SwapWhitelist,
    e1: InterceptedHtlc,
    e2: InterceptedHtlc,
    ii1: Option<ChannelAssetInfo>,
    oi1: Option<ChannelAssetInfo>,
    ii2: Option<ChannelAssetInfo>,
    oi2: Option<ChannelAssetInfo>,
)
    requires
        intercept_decision(w0, e1, ii1, oi1) is Forward,
        !w1.has_entry(e1.payment_hash@),
        e2.payment_hash@ == e1.payment_hash@,
    ensures
        intercept_decision(w1, e2, ii2, oi2) == HtlcDecision::Fail,
{
}

} // verus!
