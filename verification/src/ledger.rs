//! The colored-UTXO ledger: the persisted record of which on-chain outputs
//! carry asset allocations.
//!
//! An output that carries an allocation must never be selected as a plain
//! bitcoin input; the ledger answers which outputs those are, and hands the
//! wallet the set to exclude.  The shell persists the ledger as a single
//! document rewritten on every mutation and reloads it at startup; failure
//! to load is fatal for the node.

use vstd::prelude::*;

use crate::types::outpoint_eq;
use crate::types::OutPoint;

verus! {

/// One ledger line: an outpoint and whether it carries an allocation.
#[derive(Debug)]
pub struct ColoredUtxoRecord {
    pub outpoint: OutPoint,
    pub colored: bool,
}

impl View for ColoredUtxoRecord {
    type V = ((Seq<u8>, u32), bool);

    open spec fn view(&self) -> ((Seq<u8>, u32), bool) {
        (self.outpoint@, self.colored)
    }
}

/// Does a sequence of outpoints contain the outpoint value `q`?
pub open spec fn ops_contains(s: Seq<OutPoint>, q: (Seq<u8>, u32)) -> bool {
    exists|i: int| 0 <= i < s.len() && (#[trigger] s[i])@ == q
}

/// Linear search for an outpoint value in a vector of outpoints.
pub fn ops_contain(v: &Vec<OutPoint>, op: &OutPoint) -> (r: bool)
    ensures
        r == ops_contains(v@, op@),
{
    let n = v.len();
    let mut i: usize = 0;
    while i < n
        invariant
            n == v@.len(),
            i <= n,
            forall|j: int| 0 <= j < i ==> (#[trigger] v@[j])@ != op@,
        decreases n - i,
    {
        if outpoint_eq(&v[i], op) {
            return true;
        }
        i += 1;
    }
    false
}

/// The set of all colored-UTXO records, keyed by outpoint.
#[derive(Debug)]
pub struct ColoredUtxoLedger {
    pub records: Vec<ColoredUtxoRecord>,
}

impl View for ColoredUtxoLedger {
    type V = Seq<((Seq<u8>, u32), bool)>;

    open spec fn view(&self) -> Seq<((Seq<u8>, u32), bool)> {
        self.records@.map_values(|r: ColoredUtxoRecord| r@)
    }
}

impl ColoredUtxoLedger {
    /// Each outpoint appears at most once, and each is well formed.
    pub open spec fn wf(&self) -> bool {
        &&& forall|i: int, j: int|
            0 <= i < j < self@.len() ==> (#[trigger] self@[i]).0 != (#[trigger] self@[j]).0
        &&& forall|i: int| 0 <= i < self@.len() ==> (#[trigger] self@[i]).0.0.len() == 32
    }

    /// Is the outpoint value `q` recorded at all?
    pub open spec fn contains_outpoint(&self, q: (Seq<u8>, u32)) -> bool {
        exists|i: int| 0 <= i < self@.len() && (#[trigger] self@[i]).0 == q
    }

    /// Is the outpoint value `q` recorded as carrying an allocation?
    pub open spec fn entry_colored(&self, q: (Seq<u8>, u32)) -> bool {
        exists|i: int| 0 <= i < self@.len() && (#[trigger] self@[i]).0 == q && self@[i].1
    }

    /// The ledger of a fresh node: no output carries an allocation yet.
    pub fn new() -> (r: ColoredUtxoLedger)
        ensures
            r.wf(),
            r@.len() == 0,
    {
        ColoredUtxoLedger { records: Vec::new() }
    }

    /// Whether `op` must be kept away from plain spends.
    pub fn is_colored(&self, op: &OutPoint) -> (r: bool)
        requires
            self.wf(),
        ensures
            r == self.entry_colored(op@),
    {
        let n = self.records.len();
        let mut i: usize = 0;
        while i < n
            invariant
                self.wf(),
                n == self.records@.len(),
                i <= n,
                forall|j: int|
                    0 <= j < i ==> !((#[trigger] self@[j]).0 == op@ && self@[j].1),
            decreases n - i,
        {
            let rec = &self.records[i];
            if rec.colored && outpoint_eq(&rec.outpoint, op) {
                assert(self@[i as int].0 == op@ && self@[i as int].1);
                return true;
            }
            assert(!(self@[i as int].0 == op@ && self@[i as int].1));
            i += 1;
        }
        false
    }

    /// Record that `op` now carries an allocation.  An outpoint already
    /// present keeps its single line; every other line is untouched.
    pub fn mark_colored(&mut self, op: OutPoint)
        requires
            old(self).wf(),
            op.wf(),
        ensures
            final(self).wf(),
            final(self).entry_colored(op@),
            final(self).contains_outpoint(op@),
            forall|q: (Seq<u8>, u32)|
                q != op@ ==> final(self).entry_colored(q) == old(self).entry_colored(q),
            forall|q: (Seq<u8>, u32)|
                q != op@ ==> final(self).contains_outpoint(q) == old(self).contains_outpoint(q),
    {
        let ghost old_entries = self@;
        let mut out: Vec<ColoredUtxoRecord> = Vec::new();
        let mut seen = false;
        let n = self.records.len();
        let mut i: usize = 0;
        while i < n
            invariant
                old_entries == self@,
                self.wf(),
                op.wf(),
                n == self.records@.len(),
                i <= n,
                out@.len() == i,
                forall|j: int| 0 <= j < i ==> (#[trigger] out@[j]@).0 == old_entries[j].0,
                forall|j: int|
                    0 <= j < i ==> (#[trigger] out@[j]@).1 == (old_entries[j].1
                        || old_entries[j].0 == op@),
                seen ==> exists|j: int| 0 <= j < i && (#[trigger] old_entries[j]).0 == op@,
                !seen ==> forall|j: int|
                    0 <= j < i ==> (#[trigger] old_entries[j]).0 != op@,
            decreases n - i,
        {
            let rec = &self.records[i];
            let m = outpoint_eq(&rec.outpoint, &op);
            let colored = rec.colored || m;
            out.push(ColoredUtxoRecord { outpoint: rec.outpoint.clone_point(), colored });
            proof {
                assert(old_entries[i as int] == self@[i as int]);
                if m {
                    assert((#[trigger] old_entries[i as int]).0 == op@);
                } else {
                    assert(old_entries[i as int].0 != op@);
                }
            }
            if m {
                seen = true;
            }
            i += 1;
        }
        if !seen {
            out.push(ColoredUtxoRecord { outpoint: op, colored: true });
        }
        self.records = out;
        proof {
            let fv = self@;
            assert(fv.len() == out@.len());
            assert forall|j: int| 0 <= j < fv.len() implies fv[j] == (#[trigger] out@[j])@ by {}
            if seen {
                let j = choose|j: int| 0 <= j < n && (#[trigger] old_entries[j]).0 == op@;
                assert(fv[j].0 == op@ && fv[j].1);
                assert((#[trigger] fv[j]).0 == op@);
            } else {
                assert(out@[n as int]@ == (op@, true));
                assert((#[trigger] fv[n as int]).0 == op@ && fv[n as int].1);
            }
            assert(self.entry_colored(op@));
            assert(self.contains_outpoint(op@));
            assert forall|q: (Seq<u8>, u32)| q != op@ implies self.entry_colored(q)
                == old(self).entry_colored(q) by {
                if self.entry_colored(q) {
                    let j = choose|j: int|
                        0 <= j < fv.len() && (#[trigger] fv[j]).0 == q && fv[j].1;
                    assert(j < n);
                    assert((#[trigger] old_entries[j]).0 == q && old_entries[j].1);
                }
                if old(self).entry_colored(q) {
                    let j = choose|j: int|
                        0 <= j < old_entries.len() && (#[trigger] old_entries[j]).0 == q
                            && old_entries[j].1;
                    assert((#[trigger] fv[j]).0 == q && fv[j].1);
                }
            }
            assert forall|q: (Seq<u8>, u32)| q != op@ implies self.contains_outpoint(q)
                == old(self).contains_outpoint(q) by {
                if self.contains_outpoint(q) {
                    let j = choose|j: int| 0 <= j < fv.len() && (#[trigger] fv[j]).0 == q;
                    assert(j < n);
                    assert((#[trigger] old_entries[j]).0 == q);
                }
                if old(self).contains_outpoint(q) {
                    let j = choose|j: int|
                        0 <= j < old_entries.len() && (#[trigger] old_entries[j]).0 == q;
                    assert((#[trigger] fv[j]).0 == q);
                }
            }
            assert forall|i1: int, j1: int| 0 <= i1 < j1 < fv.len() implies (#[trigger] fv[i1]).0
                != (#[trigger] fv[j1]).0 by {
                if j1 < n {
                    assert(old_entries[i1].0 != old_entries[j1].0);
                } else {
                    assert(!seen && fv[j1].0 == op@);
                    assert(old_entries[i1].0 != op@);
                }
            }
            assert forall|i1: int| 0 <= i1 < fv.len() implies (#[trigger] fv[i1]).0.0.len()
                == 32 by {
                if i1 < n {
                    assert(old_entries[i1].0.0.len() == 32);
                }
            }
        }
    }

    /// Every colored outpoint that is not among `excluding`: the wallet's
    /// negative input filter.
    pub fn unspendable_set(&self, excluding: &Vec<OutPoint>) -> (r: Vec<OutPoint>)
        requires
            self.wf(),
        ensures
            forall|q: (Seq<u8>, u32)|
                #[trigger] ops_contains(r@, q) == (self.entry_colored(q) && !ops_contains(
                    excluding@,
                    q,
                )),
            forall|j: int| 0 <= j < r@.len() ==> (#[trigger] r@[j]).wf(),
    {
        let mut out: Vec<OutPoint> = Vec::new();
        let n = self.records.len();
        let mut i: usize = 0;
        while i < n
            invariant
                self.wf(),
                n == self.records@.len(),
                i <= n,
                forall|j: int|
                    0 <= j < out@.len() ==> self.entry_colored((#[trigger] out@[j])@)
                        && !ops_contains(excluding@, out@[j]@),
                forall|q: (Seq<u8>, u32)|
                    #[trigger] ops_contains(out@, q) ==> exists|k: int|
                        0 <= k < i && (#[trigger] self@[k]).0 == q,
                forall|k: int|
                    0 <= k < i ==> ((#[trigger] self@[k]).1 && !ops_contains(
                        excluding@,
                        self@[k].0,
                    )) ==> ops_contains(out@, self@[k].0),
                forall|j: int| 0 <= j < out@.len() ==> (#[trigger] out@[j]).wf(),
            decreases n - i,
        {
            let rec = &self.records[i];
            if rec.colored && !ops_contain(excluding, &rec.outpoint) {
                let ghost old_out = out@;
                out.push(rec.outpoint.clone_point());
                proof {
                    assert((#[trigger] out@[out@.len() - 1])@ == self@[i as int].0);
                    assert(ops_contains(out@, self@[i as int].0));
                    assert forall|q: (Seq<u8>, u32)| #[trigger]
                        ops_contains(out@, q) implies exists|k: int|
                        0 <= k < i + 1 && (#[trigger] self@[k]).0 == q by {
                        let w = choose|w: int|
                            0 <= w < out@.len() && (#[trigger] out@[w])@ == q;
                        if w < old_out.len() {
                            assert(ops_contains(old_out, q));
                        } else {
                            assert((#[trigger] self@[i as int]).0 == q);
                        }
                    }
                    assert forall|k: int|
                        0 <= k < i + 1 && ((#[trigger] self@[k]).1 && !ops_contains(
                            excluding@,
                            self@[k].0,
                        )) implies ops_contains(out@, self@[k].0) by {
                        if k < i {
                            assert(ops_contains(old_out, self@[k].0));
                            let w = choose|w: int|
                                0 <= w < old_out.len() && (#[trigger] old_out[w])@ == self@[k].0;
                            assert((#[trigger] out@[w])@ == self@[k].0);
                        } else {
                            assert((#[trigger] out@[out@.len() - 1])@ == self@[k].0);
                        }
                    }
                }
            }
            i += 1;
        }
        proof {
            assert forall|q: (Seq<u8>, u32)| #[trigger]
                ops_contains(out@, q) == (self.entry_colored(q) && !ops_contains(
                excluding@,
                q,
            )) by {
                if ops_contains(out@, q) {
                    let j = choose|j: int| 0 <= j < out@.len() && (#[trigger] out@[j])@ == q;
                    assert(self.entry_colored(q) && !ops_contains(excluding@, q));
                }
                if self.entry_colored(q) && !ops_contains(excluding@, q) {
                    let k = choose|k: int|
                        0 <= k < self@.len() && (#[trigger] self@[k]).0 == q && self@[k].1;
                    assert(ops_contains(out@, self@[k].0));
                }
            }
        }
        out
    }
}

} // verus!
