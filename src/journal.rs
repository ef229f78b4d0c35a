//! Journals, transactions, splits and reconciliation, with the double-entry rule: the splits
//! of a transaction sum to exactly zero in the reference commodity.
use crate::account::AccountId;
use crate::audit::Signature;
use crate::commodity::{rate_holds, Amount, CommodityId, CommodityKey, CurrencyCode, Quantity, RatedQuantity};
use crate::audit::{enc_i64, enc_tag, enc_text, enc_u64, put_i64, put_tag, put_text, put_u64, AuditIdentifier, Audited, KeyIdentifier};
use crate::error::{Error, Violation};
use crate::time::{Span, Timestamp};
use vstd::prelude::*;

verus! {

/// Identifies a transaction; a split refers back to its transaction with it.
#[derive(Clone, Debug)]
pub struct TransactionId(pub String);

/// The record that a split was confirmed against an outside statement.
#[derive(Clone, Debug)]
pub struct Reconciled {
    pub split_id: TransactionId,
    pub reference: String,
    pub reconciled: Timestamp,
}

/// One posting of a quantity to an account. A split in a commodity other than the
/// transaction's reference commodity carries the exchange it came from. Once `reconciled`
/// is set, the split cannot change.
#[derive(Clone, Debug)]
pub struct Split {
    pub id: TransactionId,
    pub account: AccountId,
    pub quantity: Quantity,
    pub exchanged_from: Option<RatedQuantity>,
    pub description: Option<String>,
    pub reconciled: Option<Reconciled>,
}

/// A named, dated group of splits that records one economic event.
#[derive(Clone, Debug)]
pub struct Transaction {
    pub id: TransactionId,
    pub name: String,
    pub date: Timestamp,
    pub splits: Vec<Split>,
}

/// The bound on one split's amount in units of `10^-18`, and the base of the running sum.
pub const LIMB: i128 = 10000000000000000000000000000000000000;

impl Split {
    /// All amounts of the split have a supported scale.
    pub open spec fn amounts_wf(&self) -> bool {
        &&& self.quantity.amount.wf()
        &&& (self.exchanged_from matches Some(rq) ==> rq.source.amount.wf() && rq.rate.wf())
    }

    /// The split's amount in the `reference` commodity, in units of `10^-18`: its own
    /// amount when it is in that commodity, else the source of its exchange when that is in
    /// the reference commodity and the rate turns it exactly into the split's amount.
    pub open spec fn reference_fine(&self, reference: CommodityKey) -> Option<int> {
        if self.quantity.commodity@ == reference {
            Some(self.quantity.amount.fine())
        } else if self.exchanged_from is Some && self.exchanged_from->0.source.commodity@ == reference
            && rate_holds(
            self.exchanged_from->0.source.amount,
            self.exchanged_from->0.rate,
            self.quantity.amount,
        ) {
            Some(self.exchanged_from->0.source.amount.fine())
        } else {
            None
        }
    }

    fn amounts_ok(&self) -> (r: bool)
        ensures
            r == self.amounts_wf(),
    {
        self.quantity.amount.scale <= crate::commodity::MAX_SCALE && match &self.exchanged_from {
            Some(rq) => rq.source.amount.scale <= crate::commodity::MAX_SCALE && rq.rate.scale
                <= crate::commodity::MAX_SCALE,
            None => true,
        }
    }

    /// The split's amount in `reference`, in units of `10^-18`, where it can be had.
    pub fn reference_fine_units(&self, reference: &CommodityId) -> (r: Option<i128>)
        requires
            self.amounts_wf(),
        ensures
            (r is Some) == (self.reference_fine(reference@) is Some),
            r matches Some(v) ==> self.reference_fine(reference@) == Some(v as int) && -LIMB < v
                < LIMB,
    {
        if self.quantity.commodity.same_as(reference) {
            Some(self.quantity.amount.fine_units())
        } else {
            match &self.exchanged_from {
                Some(rq) => {
                    if rq.source.commodity.same_as(reference) && rq.yields(self.quantity.amount) {
                        Some(rq.source.amount.fine_units())
                    } else {
                        None
                    }
                },
                None => None,
            }
        }
    }
}

/// The sum of the splits' amounts in the reference commodity, in units of `10^-18`; a split
/// that cannot be converted counts zero.
pub open spec fn fine_total(splits: Seq<Split>, reference: CommodityKey) -> int
    decreases splits.len(),
{
    if splits.len() == 0 {
        0
    } else {
        fine_total(splits.drop_last(), reference) + match splits.last().reference_fine(reference) {
            Some(v) => v,
            None => 0,
        }
    }
}

/// Whether a list of splits is acceptable in `reference`, and if not, why: an amount out of
/// range, then a split that cannot be converted, then a non-zero sum.
pub open spec fn balance_outcome(splits: Seq<Split>, reference: CommodityKey) -> Result<(), Violation> {
    if exists|i: int| 0 <= i < splits.len() && !(#[trigger] splits[i]).amounts_wf() {
        Err(Violation::AmountRange)
    } else if exists|i: int| 0 <= i < splits.len() && (#[trigger] splits[i]).reference_fine(reference) is None {
        Err(Violation::Conversion)
    } else if fine_total(splits, reference) != 0 {
        Err(Violation::Unbalanced)
    } else {
        Ok(())
    }
}

impl Transaction {
    /// Checks the double-entry rule against the reference commodity `reference`.
    pub fn check_balance(&self, reference: &CommodityId) -> (r: Result<(), Violation>)
        ensures
            r == balance_outcome(self.splits@, reference@),
    {
        let splits = &self.splits;
        let n = splits.len();
        let mut i: usize = 0;
        while i < n
            invariant
                n == splits@.len(),
                splits@ == self.splits@,
                i <= n,
                forall|j: int| 0 <= j < i ==> (#[trigger] splits@[j]).amounts_wf(),
            decreases n - i,
        {
            if !splits[i].amounts_ok() {
                assert(!splits@[i as int].amounts_wf());
                return Err(Violation::AmountRange);
            }
            i = i + 1;
        }
        i = 0;
        while i < n
            invariant
                n == splits@.len(),
                splits@ == self.splits@,
                i <= n,
                forall|j: int| 0 <= j < n ==> (#[trigger] splits@[j]).amounts_wf(),
                forall|j: int| 0 <= j < i ==> (#[trigger] splits@[j]).reference_fine(reference@) is Some,
            decreases n - i,
        {
            if splits[i].reference_fine_units(reference).is_none() {
                assert(splits@[i as int].reference_fine(reference@) is None);
                return Err(Violation::Conversion);
            }
            i = i + 1;
        }
        // The running sum is `hi * LIMB + lo`, with `lo` kept strictly inside `(-LIMB, LIMB)`.
        let mut hi: i128 = 0;
        let mut lo: i128 = 0;
        i = 0;
        while i < n
            invariant
                n == splits@.len(),
                splits@ == self.splits@,
                i <= n,
                forall|j: int| 0 <= j < n ==> (#[trigger] splits@[j]).amounts_wf(),
                forall|j: int| 0 <= j < n ==> (#[trigger] splits@[j]).reference_fine(reference@) is Some,
                -LIMB < lo < LIMB,
                -(i as int) <= hi <= i as int,
                hi * LIMB + lo == fine_total(splits@.subrange(0, i as int), reference@),
            decreases n - i,
        {
            let t = match splits[i].reference_fine_units(reference) {
                Some(t) => t,
                None => 0,
            };
            proof {
                let s = splits@.subrange(0, i + 1);
                assert(s.drop_last() =~= splits@.subrange(0, i as int));
                assert(s.last() == splits@[i as int]);
            }
            lo = lo + t;
            if lo >= LIMB {
                lo = lo - LIMB;
                hi = hi + 1;
            } else if lo <= -LIMB {
                lo = lo + LIMB;
                hi = hi - 1;
            }
            i = i + 1;
        }
        proof {
            assert(splits@.subrange(0, n as int) =~= splits@);
        }
        if hi == 0 && lo == 0 {
            Ok(())
        } else {
            proof {
                if hi >= 1 {
                    assert(hi * LIMB >= LIMB) by (nonlinear_arith)
                        requires
                            hi >= 1,
                    ;
                } else if hi <= -1 {
                    assert(hi * LIMB <= -LIMB) by (nonlinear_arith)
                        requires
                            hi <= -1,
                    ;
                }
            }
            Err(Violation::Unbalanced)
        }
    }
}

/// What a split holds, for comparison in contracts.
pub struct SplitView {
    pub id: Seq<char>,
    pub account: Seq<char>,
    pub commodity: CommodityKey,
    pub amount: Amount,
    pub exchanged_from: Option<(CommodityKey, Amount, Amount)>,
    pub description: Option<Seq<char>>,
    pub reconciled: Option<(Seq<char>, Seq<char>, Timestamp)>,
}

/// What a transaction holds, for comparison in contracts.
pub struct TransactionView {
    pub id: Seq<char>,
    pub name: Seq<char>,
    pub date: Timestamp,
    pub splits: Seq<SplitView>,
}

fn same_text(a: &Option<String>, b: &Option<String>) -> (r: bool)
    ensures
        r == (match (a, b) {
            (Some(x), Some(y)) => x@ == y@,
            (None, None) => true,
            _ => false,
        }),
{
    match (a, b) {
        (Some(x), Some(y)) => *x == *y,
        (None, None) => true,
        _ => false,
    }
}

impl Split {
    pub open spec fn view(&self) -> SplitView {
        SplitView {
            id: self.id.0@,
            account: self.account.0@,
            commodity: self.quantity.commodity@,
            amount: self.quantity.amount,
            exchanged_from: match self.exchanged_from {
                Some(rq) => Some((rq.source.commodity@, rq.source.amount, rq.rate)),
                None => None,
            },
            description: match self.description {
                Some(d) => Some(d@),
                None => None,
            },
            reconciled: match self.reconciled {
                Some(rc) => Some((rc.split_id.0@, rc.reference@, rc.reconciled)),
                None => None,
            },
        }
    }

    /// Whether the two splits hold the same values.
    pub fn same_as(&self, other: &Split) -> (r: bool)
        ensures
            r == (self@ == other@),
    {
        let ex = match (&self.exchanged_from, &other.exchanged_from) {
            (Some(a), Some(b)) => a.source.commodity.same_as(&b.source.commodity) && a.source.amount
                == b.source.amount && a.rate == b.rate,
            (None, None) => true,
            _ => false,
        };
        let rc = match (&self.reconciled, &other.reconciled) {
            (Some(a), Some(b)) => a.split_id.0 == b.split_id.0 && a.reference == b.reference
                && a.reconciled == b.reconciled,
            (None, None) => true,
            _ => false,
        };
        let r = self.id.0 == other.id.0 && self.account.0 == other.account.0
            && self.quantity.commodity.same_as(&other.quantity.commodity) && self.quantity.amount
            == other.quantity.amount && ex && same_text(&self.description, &other.description)
            && rc;
        proof {
            if r {
                assert(self@ == other@);
            }
        }
        r
    }
}

impl Transaction {
    pub open spec fn view(&self) -> TransactionView {
        TransactionView {
            id: self.id.0@,
            name: self.name@,
            date: self.date,
            splits: self.splits@.map_values(|s: Split| s@),
        }
    }

    /// Whether the two transactions hold the same values.
    pub fn same_as(&self, other: &Transaction) -> (r: bool)
        ensures
            r == (self@ == other@),
    {
        if !(self.id.0 == other.id.0 && self.name == other.name && self.date == other.date
            && self.splits.len() == other.splits.len()) {
            proof {
                if self@ == other@ {
                    assert(self.splits@.map_values(|s: Split| s@).len() == self.splits@.len());
                }
            }
            return false;
        }
        let mut i: usize = 0;
        while i < self.splits.len()
            invariant
                i <= self.splits@.len() == other.splits@.len(),
                forall|j: int| 0 <= j < i ==> self.splits@[j]@ == other.splits@[j]@,
            decreases self.splits@.len() - i,
        {
            if !self.splits[i].same_as(&other.splits[i]) {
                proof {
                    let a = self.splits@.map_values(|s: Split| s@);
                    let b = other.splits@.map_values(|s: Split| s@);
                    assert(a[i as int] != b[i as int]);
                }
                return false;
            }
            i = i + 1;
        }
        proof {
            let a = self.splits@.map_values(|s: Split| s@);
            let b = other.splits@.map_values(|s: Split| s@);
            assert(a =~= b);
        }
        true
    }
}

/// The views of a list of transactions.
pub open spec fn transaction_views(txs: Seq<Transaction>) -> Seq<TransactionView> {
    txs.map_values(|t: Transaction| t@)
}

/// A journal: an append-mostly list of transactions in one currency. Once
/// `read_only_after` has passed since `created`, its transactions cannot change.
#[derive(Clone, Debug)]
pub struct Journal {
    pub name: String,
    pub created: Timestamp,
    pub read_only_after: Option<Span>,
    pub transactions: Vec<Transaction>,
    pub currency: CurrencyCode,
    pub signature: Option<Signature>,
}

/// The first failure among the transactions, in order, or success.
pub open spec fn transactions_outcome(txs: Seq<Transaction>, reference: CommodityKey) -> Result<(), Violation>
    decreases txs.len(),
{
    if txs.len() == 0 {
        Ok(())
    } else {
        match transactions_outcome(txs.drop_last(), reference) {
            Err(v) => Err(v),
            Ok(_) => balance_outcome(txs.last().splits@, reference),
        }
    }
}

/// No two transactions share an identifier.
pub open spec fn ids_unique(txs: Seq<Transaction>) -> bool {
    forall|i: int, j: int| 0 <= i < j < txs.len() ==> txs[i].id.0@ != txs[j].id.0@
}

/// Every reconciled split of `old` is still present, unchanged, in the transaction of `new`
/// that has the same identifier, at the same position.
pub open spec fn keeps_reconciled(old: Seq<Transaction>, new: Seq<Transaction>) -> bool {
    forall|i: int, j: int|
        0 <= i < old.len() && 0 <= j < old[i].splits@.len() && (#[trigger] old[i].splits@[j]).reconciled is Some
            ==> exists|k: int|
            0 <= k < new.len() && (#[trigger] new[k].id.0@) == old[i].id.0@ && j < new[k].splits@.len()
                && new[k].splits@[j]@ == old[i].splits@[j]@
}

impl Journal {
    /// The commodity in which the journal's transactions balance.
    pub open spec fn reference(&self) -> CommodityKey {
        CommodityKey::Currency(self.currency@)
    }

    /// Whether the journal is acceptable, and if not, the first rule it breaks.
    pub open spec fn outcome(&self) -> Result<(), Violation> {
        match transactions_outcome(self.transactions@, self.reference()) {
            Err(v) => Err(v),
            Ok(_) => if ids_unique(self.transactions@) {
                Ok(())
            } else {
                Err(Violation::DuplicateMember)
            },
        }
    }

    /// The journal holds a signature or a reconciled split, so it can no longer be removed.
    pub open spec fn spec_is_frozen(&self) -> bool {
        ||| self.signature is Some
        ||| exists|i: int, j: int|
            0 <= i < self.transactions@.len() && 0 <= j < self.transactions@[i].splits@.len()
                && (#[trigger] self.transactions@[i].splits@[j]).reconciled is Some
    }

    /// Whether `new` may replace `old`: `old` is not signed, and every reconciled split
    /// survives unchanged.
    pub open spec fn replaceable(old: &Journal, new: &Journal) -> bool {
        old.signature is None && keeps_reconciled(old.transactions@, new.transactions@)
    }

    /// Whether `old`'s read-only window has passed at `now`.
    pub open spec fn spec_is_read_only_at(&self, now: Timestamp) -> bool {
        self.read_only_after matches Some(span) && self.created.spec_elapsed(span, now)
    }

    /// Whether `new` may replace `old` at `now` as far as the read-only window goes: after
    /// it, the transactions must stay as they are.
    pub open spec fn window_outcome(old: &Journal, new: &Journal, now: Timestamp) -> Result<(), Violation> {
        if old.spec_is_read_only_at(now) && transaction_views(old.transactions@) != transaction_views(
            new.transactions@,
        ) {
            Err(Violation::ReadOnly)
        } else {
            Ok(())
        }
    }

    /// A new, empty, unsigned journal created now.
    pub fn new(name: String, currency: CurrencyCode, read_only_after: Option<Span>) -> (r: Journal)
        ensures
            r.name@ == name@,
            r.currency@ == currency@,
            r.read_only_after == read_only_after,
            r.transactions@.len() == 0,
            r.signature is None,
    {
        Journal {
            name,
            created: Timestamp::now(),
            read_only_after,
            transactions: Vec::new(),
            currency,
            signature: None,
        }
    }

    #[verifier::when_used_as_spec(spec_is_read_only_at)]
    pub fn is_read_only_at(&self, now: Timestamp) -> (r: bool)
        ensures
            r == self.spec_is_read_only_at(now),
    {
        match self.read_only_after {
            Some(span) => self.created.elapsed(span, now),
            None => false,
        }
    }

    /// Checks every transaction against the journal's currency, then that their identifiers
    /// are distinct.
    pub fn validate(&self) -> (r: Result<(), Violation>)
        ensures
            r == self.outcome(),
    {
        let reference = CommodityId::Currency(self.currency.copy());
        let n = self.transactions.len();
        let mut i: usize = 0;
        proof {
            assert(self.transactions@.subrange(0, 0) =~= Seq::<Transaction>::empty());
        }
        while i < n
            invariant
                n == self.transactions@.len(),
                i <= n,
                reference@ == self.reference(),
                transactions_outcome(self.transactions@.subrange(0, i as int), self.reference()) is Ok,
            decreases n - i,
        {
            let res = self.transactions[i].check_balance(&reference);
            proof {
                let s = self.transactions@.subrange(0, i + 1);
                assert(s.drop_last() =~= self.transactions@.subrange(0, i as int));
            }
            match res {
                Err(v) => {
                    proof {
                        lemma_outcome_prefix_err(self.transactions@, (i + 1) as int, self.reference());
                    }
                    return Err(v);
                },
                Ok(_) => {},
            }
            i = i + 1;
        }
        proof {
            assert(self.transactions@.subrange(0, n as int) =~= self.transactions@);
        }
        let mut a: usize = 0;
        while a < n
            invariant
                n == self.transactions@.len(),
                a <= n,
                transactions_outcome(self.transactions@, self.reference()) is Ok,
                forall|x: int, y: int| 0 <= x < a && x < y < n ==> self.transactions@[x].id.0@ != self.transactions@[y].id.0@,
            decreases n - a,
        {
            let mut b: usize = a + 1;
            while b < n
                invariant
                    n == self.transactions@.len(),
                    a < n,
                    a + 1 <= b <= n,
                    transactions_outcome(self.transactions@, self.reference()) is Ok,
                    forall|x: int, y: int| 0 <= x < a && x < y < n ==> self.transactions@[x].id.0@ != self.transactions@[y].id.0@,
                    forall|y: int| a < y < b ==> self.transactions@[a as int].id.0@ != self.transactions@[y].id.0@,
                decreases n - b,
            {
                if self.transactions[a].id.0 == self.transactions[b].id.0 {
                    assert(!ids_unique(self.transactions@));
                    return Err(Violation::DuplicateMember);
                }
                b = b + 1;
            }
            a = a + 1;
        }
        Ok(())
    }
}

/// Once a prefix of the transactions fails, so does every longer prefix, with the same error.
proof fn lemma_outcome_prefix_err(txs: Seq<Transaction>, k: int, reference: CommodityKey)
    requires
        0 <= k <= txs.len(),
        transactions_outcome(txs.subrange(0, k), reference) is Err,
    ensures
        transactions_outcome(txs, reference) == transactions_outcome(txs.subrange(0, k), reference),
    decreases txs.len() - k,
{
    if k < txs.len() {
        let s = txs.subrange(0, k + 1);
        assert(s.drop_last() =~= txs.subrange(0, k));
        lemma_outcome_prefix_err(txs, k + 1, reference);
    } else {
        assert(txs.subrange(0, k) =~= txs);
    }
}

impl Journal {
    pub fn is_frozen(&self) -> (r: bool)
        ensures
            r == self.spec_is_frozen(),
    {
        if self.signature.is_some() {
            return true;
        }
        let mut i: usize = 0;
        while i < self.transactions.len()
            invariant
                self.signature is None,
                i <= self.transactions@.len(),
                forall|x: int, y: int|
                    0 <= x < i && 0 <= y < self.transactions@[x].splits@.len()
                        ==> (#[trigger] self.transactions@[x].splits@[y]).reconciled is None,
            decreases self.transactions@.len() - i,
        {
            let tx = &self.transactions[i];
            let mut j: usize = 0;
            while j < tx.splits.len()
                invariant
                    self.signature is None,
                    i < self.transactions@.len(),
                    *tx == self.transactions@[i as int],
                    j <= tx.splits@.len(),
                    forall|x: int, y: int|
                        0 <= x < i && 0 <= y < self.transactions@[x].splits@.len()
                            ==> (#[trigger] self.transactions@[x].splits@[y]).reconciled is None,
                    forall|y: int| 0 <= y < j ==> (#[trigger] tx.splits@[y]).reconciled is None,
                decreases tx.splits@.len() - j,
            {
                if tx.splits[j].reconciled.is_some() {
                    assert(self.transactions@[i as int].splits@[j as int].reconciled is Some);
                    return true;
                }
                j = j + 1;
            }
            i = i + 1;
        }
        false
    }

    /// Whether `new` may replace `self`: `self` is unsigned and each of its reconciled
    /// splits survives unchanged in `new`.
    pub fn may_be_replaced_by(&self, new: &Journal) -> (r: bool)
        ensures
            r == Journal::replaceable(self, new),
    {
        if self.signature.is_some() {
            return false;
        }
        let old = &self.transactions;
        let mut i: usize = 0;
        while i < old.len()
            invariant
                *old == self.transactions,
                i <= old@.len(),
                forall|x: int, y: int|
                    0 <= x < i && 0 <= y < old@[x].splits@.len() && (#[trigger] old@[x].splits@[y]).reconciled is Some
                        ==> exists|k: int|
                        0 <= k < new.transactions@.len() && (#[trigger] new.transactions@[k].id.0@) == old@[x].id.0@
                            && y < new.transactions@[k].splits@.len() && new.transactions@[k].splits@[y]@ == old@[x].splits@[y]@,
            decreases old@.len() - i,
        {
            let tx = &old[i];
            let mut j: usize = 0;
            while j < tx.splits.len()
                invariant
                    *old == self.transactions,
                    i < old@.len(),
                    *tx == old@[i as int],
                    j <= tx.splits@.len(),
                    forall|x: int, y: int|
                        0 <= x < i && 0 <= y < old@[x].splits@.len() && (#[trigger] old@[x].splits@[y]).reconciled is Some
                            ==> exists|k: int|
                            0 <= k < new.transactions@.len() && (#[trigger] new.transactions@[k].id.0@) == old@[x].id.0@
                                && y < new.transactions@[k].splits@.len() && new.transactions@[k].splits@[y]@ == old@[x].splits@[y]@,
                    forall|y: int|
                        0 <= y < j && (#[trigger] tx.splits@[y]).reconciled is Some ==> exists|k: int|
                            0 <= k < new.transactions@.len() && (#[trigger] new.transactions@[k].id.0@) == tx.id.0@
                                && y < new.transactions@[k].splits@.len() && new.transactions@[k].splits@[y]@ == tx.splits@[y]@,
                decreases tx.splits@.len() - j,
            {
                if tx.splits[j].reconciled.is_some() {
                    let mut k: usize = 0;
                    let mut found = false;
                    while k < new.transactions.len() && !found
                        invariant
                            k <= new.transactions@.len(),
                            j < tx.splits@.len(),
                            found ==> k > 0 && new.transactions@[k - 1].id.0@ == tx.id.0@ && j < new.transactions@[k - 1].splits@.len()
                                && new.transactions@[k - 1].splits@[j as int]@ == tx.splits@[j as int]@,
                            !found ==> forall|x: int| 0 <= x < k ==> !((#[trigger] new.transactions@[x].id.0@) == tx.id.0@
                                && j < new.transactions@[x].splits@.len() && new.transactions@[x].splits@[j as int]@ == tx.splits@[j as int]@),
                        decreases new.transactions@.len() - k + if found { 0int } else { 1int },
                    {
                        let ntx = &new.transactions[k];
                        if ntx.id.0 == tx.id.0 && j < ntx.splits.len() && ntx.splits[j].same_as(&tx.splits[j]) {
                            found = true;
                        }
                        k = k + 1;
                    }
                    if !found {
                        assert(old@[i as int].splits@[j as int].reconciled is Some);
                        return false;
                    }
                    assert(new.transactions@[k - 1].id.0@ == tx.id.0@);
                }
                j = j + 1;
            }
            i = i + 1;
        }
        true
    }

    /// Whether the read-only window allows `new` to replace `self` at `now`.
    pub fn window_check(&self, new: &Journal, now: Timestamp) -> (r: Result<(), Violation>)
        ensures
            r == Journal::window_outcome(self, new, now),
    {
        if !self.is_read_only_at(now) {
            return Ok(());
        }
        let ghost a = transaction_views(self.transactions@);
        let ghost b = transaction_views(new.transactions@);
        if self.transactions.len() != new.transactions.len() {
            assert(a.len() != b.len());
            return Err(Violation::ReadOnly);
        }
        let mut i: usize = 0;
        while i < self.transactions.len()
            invariant
                a == transaction_views(self.transactions@),
                b == transaction_views(new.transactions@),
                self.spec_is_read_only_at(now),
                self.transactions@.len() == new.transactions@.len(),
                i <= self.transactions@.len(),
                forall|x: int| 0 <= x < i ==> a[x] == b[x],
            decreases self.transactions@.len() - i,
        {
            if !self.transactions[i].same_as(&new.transactions[i]) {
                assert(a[i as int] != b[i as int]);
                return Err(Violation::ReadOnly);
            }
            i = i + 1;
        }
        assert(a =~= b);
        Ok(())
    }

    /// Appends `tx` at time `now`. Fails with `Immutable` if the journal is signed, with
    /// `InvariantViolation` if its read-only window has passed at `now` or `tx` does not
    /// balance in the journal's currency, and with `DuplicateIdentifier` if a transaction
    /// already has `tx`'s identifier. An acceptable journal stays acceptable.
    pub fn append_transaction(&mut self, tx: Transaction, now: Timestamp) -> (r: Result<(), Error>)
        ensures
            r is Err ==> *final(self) == *old(self),
            old(self).signature is Some ==> (r matches Err(Error::Immutable { id }) && id@ == old(self).name@),
            old(self).signature is None && old(self).spec_is_read_only_at(now) ==> r == Err::<(), Error>(
                Error::InvariantViolation { violation: Violation::ReadOnly },
            ),
            old(self).signature is None && !old(self).spec_is_read_only_at(now) && balance_outcome(tx.splits@, old(self).reference()) is Err
                ==> r == Err::<(), Error>(Error::InvariantViolation { violation: balance_outcome(tx.splits@, old(self).reference())->Err_0 }),
            old(self).signature is None && !old(self).spec_is_read_only_at(now) && balance_outcome(tx.splits@, old(self).reference()) is Ok
                && (exists|k: int| 0 <= k < old(self).transactions@.len() && (#[trigger] old(self).transactions@[k]).id.0@ == tx.id.0@)
                ==> (r matches Err(Error::DuplicateIdentifier { id }) && id@ == tx.id.0@),
            r is Ok <==> old(self).signature is None && !old(self).spec_is_read_only_at(now)
                && balance_outcome(tx.splits@, old(self).reference()) is Ok
                && forall|k: int| 0 <= k < old(self).transactions@.len() ==> (#[trigger] old(self).transactions@[k]).id.0@ != tx.id.0@,
            r is Ok ==> {
                &&& final(self).transactions@ == old(self).transactions@.push(tx)
                &&& final(self).name == old(self).name
                &&& final(self).created == old(self).created
                &&& final(self).read_only_after == old(self).read_only_after
                &&& final(self).currency == old(self).currency
                &&& final(self).signature == old(self).signature
            },
            r is Ok && old(self).outcome() is Ok ==> final(self).outcome() is Ok,
    {
        if self.signature.is_some() {
            return Err(Error::Immutable { id: self.name.clone() });
        }
        if self.is_read_only_at(now) {
            return Err(Error::InvariantViolation { violation: Violation::ReadOnly });
        }
        let reference = CommodityId::Currency(self.currency.copy());
        match tx.check_balance(&reference) {
            Err(v) => {
                return Err(Error::InvariantViolation { violation: v });
            },
            Ok(_) => {},
        }
        let mut k: usize = 0;
        while k < self.transactions.len()
            invariant
                *self == *old(self),
                self.signature is None,
                !self.spec_is_read_only_at(now),
                balance_outcome(tx.splits@, self.reference()) is Ok,
                k <= self.transactions@.len(),
                forall|x: int| 0 <= x < k ==> (#[trigger] self.transactions@[x]).id.0@ != tx.id.0@,
            decreases self.transactions@.len() - k,
        {
            if self.transactions[k].id.0 == tx.id.0 {
                return Err(Error::DuplicateIdentifier { id: tx.id.0.clone() });
            }
            k = k + 1;
        }
        let ghost before = self.transactions@;
        self.transactions.push(tx);
        proof {
            let after = self.transactions@;
            assert(after.drop_last() =~= before);
            assert(after.last() == tx);
            if ids_unique(before) {
                assert forall|i: int, j: int| 0 <= i < j < after.len() implies after[i].id.0@ != after[j].id.0@ by {
                    if j == after.len() - 1 {
                        assert(after[i] == before[i]);
                    } else {
                        assert(after[i] == before[i] && after[j] == before[j]);
                    }
                }
            }
        }
        Ok(())
    }

    /// Records that split `s` of transaction `t` was confirmed against `reference` at `at`.
    /// Fails with `Immutable` if the journal is signed or the split already reconciled.
    pub fn reconcile(&mut self, t: usize, s: usize, reference: String, at: Timestamp) -> (r: Result<(), Error>)
        requires
            t < old(self).transactions@.len(),
            s < old(self).transactions@[t as int].splits@.len(),
        ensures
            r is Err <==> (old(self).signature is Some || old(self).transactions@[t as int].splits@[s as int].reconciled is Some),
            r is Err ==> *final(self) == *old(self) && r->Err_0 is Immutable,
            r is Ok ==> {
                &&& final(self).name == old(self).name
                &&& final(self).created == old(self).created
                &&& final(self).read_only_after == old(self).read_only_after
                &&& final(self).currency == old(self).currency
                &&& final(self).signature == old(self).signature
                &&& final(self).transactions@.len() == old(self).transactions@.len()
                &&& forall|k: int| 0 <= k < old(self).transactions@.len() && k != t
                    ==> final(self).transactions@[k] == old(self).transactions@[k]
                &&& final(self).transactions@[t as int].id == old(self).transactions@[t as int].id
                &&& final(self).transactions@[t as int].name == old(self).transactions@[t as int].name
                &&& final(self).transactions@[t as int].date == old(self).transactions@[t as int].date
                &&& final(self).transactions@[t as int].splits@.len() == old(self).transactions@[t as int].splits@.len()
                &&& forall|k: int| 0 <= k < old(self).transactions@[t as int].splits@.len() && k != s
                    ==> final(self).transactions@[t as int].splits@[k] == old(self).transactions@[t as int].splits@[k]
                &&& final(self).transactions@[t as int].splits@[s as int]@ == (SplitView {
                    reconciled: Some((old(self).transactions@[t as int].id.0@, reference@, at)),
                    ..old(self).transactions@[t as int].splits@[s as int]@
                })
            },
    {
        if self.signature.is_some() {
            return Err(Error::Immutable { id: self.name.clone() });
        }
        if self.transactions[t].splits[s].reconciled.is_some() {
            return Err(Error::Immutable { id: self.transactions[t].id.0.clone() });
        }
        let mut tx = self.transactions.remove(t);
        let mut sp = tx.splits.remove(s);
        let id = tx.id.0.clone();
        sp.reconciled = Some(Reconciled { split_id: TransactionId(id), reference, reconciled: at });
        tx.splits.insert(s, sp);
        self.transactions.insert(t, tx);
        Ok(())
    }

    /// Signs the journal with the signature bytes `binary` made by key `identity` at `at`.
    /// A signed journal cannot be signed again: that fails with `Immutable`.
    pub fn sign(&mut self, identity: KeyIdentifier, binary: Vec<u8>, at: Timestamp) -> (r: Result<(), Error>)
        ensures
            r is Err <==> old(self).signature is Some,
            r is Err ==> *final(self) == *old(self) && r->Err_0 is Immutable,
            r is Ok ==> (final(self).signature matches Some(sig) && sig.identity == identity
                && sig.binary@ == binary@ && sig.signed_on == at),
            r is Ok ==> final(self).transactions == old(self).transactions && final(self).name
                == old(self).name && final(self).currency == old(self).currency,
    {
        if self.signature.is_some() {
            return Err(Error::Immutable { id: self.name.clone() });
        }
        self.signature = Some(Signature { identity, signed_on: at, binary });
        Ok(())
    }
}

/// Every transaction of an accepted list balances: each split converts to the reference
/// commodity and the converted amounts sum to exactly zero.
pub proof fn lemma_accepted_transactions_balance(txs: Seq<Transaction>, reference: CommodityKey, i: int)
    requires
        transactions_outcome(txs, reference) is Ok,
        0 <= i < txs.len(),
    ensures
        fine_total(txs[i].splits@, reference) == 0,
        forall|j: int| 0 <= j < txs[i].splits@.len() ==> (#[trigger] txs[i].splits@[j]).reference_fine(reference) is Some,
    decreases txs.len(),
{
    if i < txs.len() - 1 {
        assert(txs.drop_last()[i] == txs[i]);
        lemma_accepted_transactions_balance(txs.drop_last(), reference, i);
    } else {
        let s = txs[i].splits@;
        assert(balance_outcome(s, reference) is Ok);
        assert forall|j: int| 0 <= j < s.len() implies (#[trigger] s[j]).reference_fine(reference) is Some by {
            if s[j].reference_fine(reference) is None {
                assert(exists|x: int| 0 <= x < s.len() && (#[trigger] s[x]).reference_fine(reference) is None);
            }
        }
    }
}

/// A journal that validation accepts holds only balanced transactions.
pub proof fn lemma_accepted_journal_balances(j: Journal, i: int)
    requires
        j.outcome() is Ok,
        0 <= i < j.transactions@.len(),
    ensures
        fine_total(j.transactions@[i].splits@, j.reference()) == 0,
        forall|k: int| 0 <= k < j.transactions@[i].splits@.len() ==> (#[trigger] j.transactions@[i].splits@[k]).reference_fine(j.reference()) is Some,
{
    lemma_accepted_transactions_balance(j.transactions@, j.reference(), i);
}

pub open spec fn enc_commodity(c: CommodityKey) -> Seq<u8> {
    match c {
        CommodityKey::Currency(code) => enc_tag(0, enc_text(code)),
        CommodityKey::Security(isin) => enc_tag(1, enc_text(isin)),
    }
}

pub open spec fn enc_amount(a: Amount) -> Seq<u8> {
    enc_i64(a.mantissa) + enc_u64(a.scale as u64)
}

pub open spec fn enc_exchange(e: Option<(CommodityKey, Amount, Amount)>) -> Seq<u8> {
    match e {
        None => seq![0u8],
        Some((c, source, rate)) => enc_tag(1, enc_commodity(c) + enc_amount(source) + enc_amount(rate)),
    }
}

pub open spec fn enc_optional_text(d: Option<Seq<char>>) -> Seq<u8> {
    match d {
        None => seq![0u8],
        Some(d) => enc_tag(1, enc_text(d)),
    }
}

pub open spec fn enc_reconciled(r: Option<(Seq<char>, Seq<char>, Timestamp)>) -> Seq<u8> {
    match r {
        None => seq![0u8],
        Some((id, reference, at)) => enc_tag(1, enc_text(id) + enc_text(reference) + enc_i64(at.millis)),
    }
}

/// The stable representation of a split.
pub open spec fn enc_split(s: SplitView) -> Seq<u8> {
    enc_text(s.id) + enc_text(s.account) + enc_commodity(s.commodity) + enc_amount(s.amount) + enc_exchange(
        s.exchanged_from,
    ) + enc_optional_text(s.description) + enc_reconciled(s.reconciled)
}

pub open spec fn enc_splits(s: Seq<SplitView>) -> Seq<u8>
    decreases s.len(),
{
    if s.len() == 0 {
        Seq::empty()
    } else {
        enc_splits(s.drop_last()) + enc_split(s.last())
    }
}

/// The stable representation of a transaction.
pub open spec fn enc_transaction(t: TransactionView) -> Seq<u8> {
    enc_text(t.id) + enc_text(t.name) + enc_i64(t.date.millis) + enc_u64(t.splits.len() as u64) + enc_splits(t.splits)
}

pub open spec fn enc_transactions(s: Seq<TransactionView>) -> Seq<u8>
    decreases s.len(),
{
    if s.len() == 0 {
        Seq::empty()
    } else {
        enc_transactions(s.drop_last()) + enc_transaction(s.last())
    }
}

/// The stable representation of a journal: its name, creation time, read-only window,
/// currency and transactions. The signature is not part of it: it is made over it.
pub open spec fn enc_journal(j: &Journal) -> Seq<u8> {
    enc_text(j.name@) + enc_i64(j.created.millis) + match j.read_only_after {
        None => seq![0u8],
        Some(span) => enc_tag(1, enc_u64(span.millis)),
    } + enc_text(j.currency@) + enc_u64(j.transactions@.len() as u64) + enc_transactions(transaction_views(j.transactions@))
}

fn put_commodity(out: &mut Vec<u8>, c: &CommodityId)
    ensures
        final(out)@ == old(out)@ + enc_commodity(c@),
{
    match c {
        CommodityId::Currency(code) => {
            put_tag(out, 0);
            put_text(out, code.alpha_code());
        },
        CommodityId::Security(isin) => {
            put_tag(out, 1);
            put_text(out, isin.0.as_str());
        },
    }
    assert(out@ =~= old(out)@ + enc_commodity(c@));
}

fn put_amount(out: &mut Vec<u8>, a: Amount)
    ensures
        final(out)@ == old(out)@ + enc_amount(a),
{
    put_i64(out, a.mantissa);
    put_u64(out, a.scale as u64);
    assert(out@ =~= old(out)@ + enc_amount(a));
}

fn put_exchange(out: &mut Vec<u8>, e: &Option<RatedQuantity>)
    ensures
        final(out)@ == old(out)@ + enc_exchange(
            match e {
                Some(rq) => Some((rq.source.commodity@, rq.source.amount, rq.rate)),
                None => None,
            },
        ),
{
    match e {
        None => put_tag(out, 0),
        Some(rq) => {
            put_tag(out, 1);
            put_commodity(out, &rq.source.commodity);
            put_amount(out, rq.source.amount);
            put_amount(out, rq.rate);
            assert(out@ =~= old(out)@ + enc_tag(1, enc_commodity(rq.source.commodity@) + enc_amount(rq.source.amount) + enc_amount(rq.rate)));
        },
    }
}

fn put_optional_text(out: &mut Vec<u8>, d: &Option<String>)
    ensures
        final(out)@ == old(out)@ + enc_optional_text(
            match d {
                Some(d) => Some(d@),
                None => None,
            },
        ),
{
    match d {
        None => put_tag(out, 0),
        Some(d) => {
            put_tag(out, 1);
            put_text(out, d.as_str());
            assert(out@ =~= old(out)@ + enc_tag(1, enc_text(d@)));
        },
    }
}

fn put_reconciled(out: &mut Vec<u8>, r: &Option<Reconciled>)
    ensures
        final(out)@ == old(out)@ + enc_reconciled(
            match r {
                Some(rc) => Some((rc.split_id.0@, rc.reference@, rc.reconciled)),
                None => None,
            },
        ),
{
    match r {
        None => put_tag(out, 0),
        Some(rc) => {
            put_tag(out, 1);
            put_text(out, rc.split_id.0.as_str());
            put_text(out, rc.reference.as_str());
            put_i64(out, rc.reconciled.millis);
            assert(out@ =~= old(out)@ + enc_tag(1, enc_text(rc.split_id.0@) + enc_text(rc.reference@) + enc_i64(rc.reconciled.millis)));
        },
    }
}

impl Split {
    fn put_stable(&self, out: &mut Vec<u8>)
        ensures
            final(out)@ == old(out)@ + enc_split(self@),
    {
        let ghost start = out@;
        put_text(out, self.id.0.as_str());
        put_text(out, self.account.0.as_str());
        put_commodity(out, &self.quantity.commodity);
        put_amount(out, self.quantity.amount);
        put_exchange(out, &self.exchanged_from);
        put_optional_text(out, &self.description);
        put_reconciled(out, &self.reconciled);
        assert(out@ =~= start + enc_split(self@));
    }
}

impl Transaction {
    fn put_stable(&self, out: &mut Vec<u8>)
        ensures
            final(out)@ == old(out)@ + enc_transaction(self@),
    {
        let ghost start = out@;
        put_text(out, self.id.0.as_str());
        put_text(out, self.name.as_str());
        put_i64(out, self.date.millis);
        put_u64(out, self.splits.len() as u64);
        let ghost head = out@;
        let ghost views = self.splits@.map_values(|s: Split| s@);
        let mut i: usize = 0;
        while i < self.splits.len()
            invariant
                i <= self.splits@.len(),
                views == self.splits@.map_values(|s: Split| s@),
                out@ == head + enc_splits(views.take(i as int)),
            decreases self.splits@.len() - i,
        {
            self.splits[i].put_stable(out);
            proof {
                let t = views.take(i + 1);
                assert(t.drop_last() =~= views.take(i as int));
                assert(t.last() == self.splits@[i as int]@);
            }
            i = i + 1;
        }
        proof {
            assert(views.take(i as int) =~= views);
            assert(views.len() == self.splits@.len());
            assert(out@ =~= start + enc_transaction(self@));
        }
    }
}

impl Journal {
    pub fn is_signed(&self) -> (r: bool)
        ensures
            r == self.signature is Some,
    {
        self.signature.is_some()
    }

    pub fn signature(&self) -> (r: Option<&Signature>)
        ensures
            (r is Some) == (self.signature is Some),
            r matches Some(s) ==> *s == self.signature->0,
    {
        self.signature.as_ref()
    }
}

impl Audited for Journal {
    open spec fn stable(&self) -> Seq<u8> {
        enc_journal(self)
    }

    open spec fn audit_key(&self) -> Seq<char> {
        self.name@
    }

    fn audit_identifier(&self) -> (r: AuditIdentifier) {
        let kind = "journal";
        AuditIdentifier {
            kind: kind.to_string(),
            version: crate::configuration::SchemaVersion::new(0, 1, 0),
            identifier: self.name.clone(),
        }
    }

    fn stable_representation(&self) -> (r: Vec<u8>) {
        let mut out: Vec<u8> = Vec::new();
        put_text(&mut out, self.name.as_str());
        put_i64(&mut out, self.created.millis);
        let ghost a = out@;
        match self.read_only_after {
            None => put_tag(&mut out, 0),
            Some(span) => {
                put_tag(&mut out, 1);
                put_u64(&mut out, span.millis);
            },
        }
        let ghost b = out@;
        put_text(&mut out, self.currency.alpha_code());
        put_u64(&mut out, self.transactions.len() as u64);
        let ghost head = out@;
        let ghost views = transaction_views(self.transactions@);
        let mut i: usize = 0;
        while i < self.transactions.len()
            invariant
                i <= self.transactions@.len(),
                views == transaction_views(self.transactions@),
                out@ == head + enc_transactions(views.take(i as int)),
            decreases self.transactions@.len() - i,
        {
            self.transactions[i].put_stable(&mut out);
            proof {
                let t = views.take(i + 1);
                assert(t.drop_last() =~= views.take(i as int));
                assert(t.last() == self.transactions@[i as int]@);
            }
            i = i + 1;
        }
        proof {
            let ro = match self.read_only_after {
                None => seq![0u8],
                Some(span) => enc_tag(1, enc_u64(span.millis)),
            };
            assert(views.take(i as int) =~= views);
            assert(b =~= a + ro);
            assert(out@ =~= enc_journal(self));
        }
        out
    }
}

/// The stable representation depends on the journal's values alone: two journals that hold
/// the same values, whatever their signatures, have the same representation.
pub proof fn lemma_stable_representation_is_deterministic(a: &Journal, b: &Journal)
    requires
        a.name@ == b.name@,
        a.created == b.created,
        a.read_only_after == b.read_only_after,
        a.currency@ == b.currency@,
        transaction_views(a.transactions@) == transaction_views(b.transactions@),
    ensures
        a.stable() == b.stable(),
{
    assert(a.transactions@.len() == transaction_views(a.transactions@).len());
    assert(b.transactions@.len() == transaction_views(b.transactions@).len());
}

} // verus!
