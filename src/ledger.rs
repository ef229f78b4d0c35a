//! Ledgers: books of accounts sharing a reference currency, whose parent references form
//! a forest.
use crate::account::Account;
use crate::commodity::CurrencyCode;
use crate::error::Violation;
use crate::time::Timestamp;
use vstd::prelude::*;

verus! {

/// The purpose of a ledger.
#[derive(Clone, Debug)]
pub enum LedgerKind {
    General,
    Sales,
    Purchase,
    Other(String),
}

impl LedgerKind {
    /// The name under which a ledger of this kind is stored.
    pub open spec fn label(&self) -> Seq<char> {
        match self {
            LedgerKind::General => seq!['g', 'e', 'n', 'e', 'r', 'a', 'l'],
            LedgerKind::Sales => seq!['s', 'a', 'l', 'e', 's'],
            LedgerKind::Purchase => seq!['p', 'u', 'r', 'c', 'h', 'a', 's', 'e'],
            LedgerKind::Other(l) => l@,
        }
    }

    pub fn to_label(&self) -> (r: String)
        ensures
            r@ == self.label(),
    {
        match self {
            LedgerKind::General => {
                let s = "general";
                proof {
                    reveal_strlit("general");
                }
                s.to_string()
            },
            LedgerKind::Sales => {
                let s = "sales";
                proof {
                    reveal_strlit("sales");
                }
                s.to_string()
            },
            LedgerKind::Purchase => {
                let s = "purchase";
                proof {
                    reveal_strlit("purchase");
                }
                s.to_string()
            },
            LedgerKind::Other(l) => l.clone(),
        }
    }
}

/// A ledger: a book of accounts in one reference currency.
#[derive(Clone, Debug)]
pub struct Ledger {
    pub kind: LedgerKind,
    pub created: Timestamp,
    pub description: String,
    pub currency: CurrencyCode,
    pub book: Vec<Account>,
}

/// No two accounts share an identifier.
pub open spec fn account_ids_distinct(book: Seq<Account>) -> bool {
    forall|i: int, j: int| 0 <= i < j < book.len() ==> book[i].id.0@ != book[j].id.0@
}

/// Some account of the book has identifier `id`.
pub open spec fn holds_account(book: Seq<Account>, id: Seq<char>) -> bool {
    exists|j: int| 0 <= j < book.len() && (#[trigger] book[j].id.0@) == id
}

/// Every parent reference names an account of the book.
pub open spec fn parents_resolve(book: Seq<Account>) -> bool {
    forall|i: int|
        0 <= i < book.len() && (#[trigger] book[i].parent_id) is Some ==> holds_account(book, book[i].parent_id->0@)
}

/// The position of account `i`'s parent in the book.
pub open spec fn parent_of(book: Seq<Account>, i: int) -> Option<int> {
    match book[i].parent_id {
        Some(p) => if holds_account(book, p@) {
            Some(choose|j: int| 0 <= j < book.len() && (#[trigger] book[j].id.0@) == p@)
        } else {
            None
        },
        None => None,
    }
}

/// The account reached from account `i` by following `k` parent references.
pub open spec fn ancestor(book: Seq<Account>, i: int, k: nat) -> Option<int>
    decreases k,
{
    if k == 0 {
        Some(i)
    } else {
        match ancestor(book, i, (k - 1) as nat) {
            Some(a) => parent_of(book, a),
            None => None,
        }
    }
}

/// Following parent references from some account leads back to it. A cycle passes through
/// at most as many accounts as the book holds, so longer walks need not be considered.
pub open spec fn has_cycle(book: Seq<Account>) -> bool {
    exists|i: int, k: nat| 0 <= i < book.len() && 1 <= k <= book.len() && #[trigger] ancestor(book, i, k) == Some(i)
}

/// Whether a book of accounts is acceptable, and if not, the first rule it breaks.
pub open spec fn book_outcome(book: Seq<Account>) -> Result<(), Violation> {
    if !account_ids_distinct(book) {
        Err(Violation::DuplicateMember)
    } else if !parents_resolve(book) {
        Err(Violation::UnknownParent)
    } else if has_cycle(book) {
        Err(Violation::ParentCycle)
    } else {
        Ok(())
    }
}

impl Ledger {
    /// Whether the ledger is acceptable, and if not, the first rule it breaks: distinct
    /// account identifiers, then parents that resolve, then no cycle.
    pub open spec fn outcome(&self) -> Result<(), Violation> {
        book_outcome(self.book@)
    }

    /// A new ledger with an empty book, created now.
    pub fn new(kind: LedgerKind, description: String, currency: CurrencyCode) -> (r: Ledger)
        ensures
            r.kind == kind,
            r.description@ == description@,
            r.currency@ == currency@,
            r.book@.len() == 0,
    {
        Ledger { kind, created: Timestamp::now(), description, currency, book: Vec::new() }
    }

    /// Adds `account` to the book, where the book stays a forest of distinct accounts;
    /// otherwise the ledger is left as it was and the rule that the addition would break is
    /// returned.
    pub fn add_account(&mut self, account: Account) -> (r: Result<(), Violation>)
        ensures
            r == book_outcome(old(self).book@.push(account)),
            r is Ok ==> final(self).book@ == old(self).book@.push(account),
            r is Err ==> final(self).book@ == old(self).book@,
            final(self).kind == old(self).kind,
            final(self).created == old(self).created,
            final(self).description == old(self).description,
            final(self).currency == old(self).currency,
    {
        let ghost before = self.book@;
        let ghost a = account;
        self.book.push(account);
        let r = self.validate();
        if r.is_err() {
            let _ = self.book.pop();
            assert(self.book@ =~= before);
        }
        r
    }

    /// The account with identifier `id`, if the book holds one.
    pub fn account(&self, id: &String) -> (r: Option<&Account>)
        ensures
            (r is Some) == holds_account(self.book@, id@),
            r matches Some(a) ==> a.id.0@ == id@,
    {
        match find_account(&self.book, id) {
            Some(j) => Some(&self.book[j]),
            None => None,
        }
    }

    /// Checks the ledger's account forest.
    pub fn validate(&self) -> (r: Result<(), Violation>)
        ensures
            r == self.outcome(),
    {
        let book = &self.book;
        let n = book.len();
        // distinct identifiers
        let mut a: usize = 0;
        while a < n
            invariant
                book@ == self.book@,
                n == book@.len(),
                a <= n,
                forall|x: int, y: int| 0 <= x < a && x < y < n ==> book@[x].id.0@ != book@[y].id.0@,
            decreases n - a,
        {
            let mut b: usize = a + 1;
            while b < n
                invariant
                    book@ == self.book@,
                    n == book@.len(),
                    a < n,
                    a + 1 <= b <= n,
                    forall|x: int, y: int| 0 <= x < a && x < y < n ==> book@[x].id.0@ != book@[y].id.0@,
                    forall|y: int| a < y < b ==> book@[a as int].id.0@ != book@[y].id.0@,
                decreases n - b,
            {
                if book[a].id.0 == book[b].id.0 {
                    return Err(Violation::DuplicateMember);
                }
                b = b + 1;
            }
            a = a + 1;
        }
        // parents resolve
        let mut i: usize = 0;
        while i < n
            invariant
                book@ == self.book@,
                n == book@.len(),
                i <= n,
                account_ids_distinct(book@),
                forall|x: int| 0 <= x < i && (#[trigger] book@[x].parent_id) is Some ==> holds_account(book@, book@[x].parent_id->0@),
            decreases n - i,
        {
            match &book[i].parent_id {
                Some(p) => {
                    if find_account(book, p).is_none() {
                        assert(book@[i as int].parent_id is Some);
                        return Err(Violation::UnknownParent);
                    }
                },
                None => {},
            }
            i = i + 1;
        }
        // no cycle
        i = 0;
        while i < n
            invariant
                book@ == self.book@,
                n == book@.len(),
                i <= n,
                account_ids_distinct(book@),
                parents_resolve(book@),
                forall|x: int, k: nat| 0 <= x < i && 1 <= k <= n ==> #[trigger] ancestor(book@, x, k) != Some(x),
            decreases n - i,
        {
            let mut cur: usize = i;
            let mut k: usize = 0;
            let mut done = false;
            while k < n && !done
                invariant
                    book@ == self.book@,
                    n == book@.len(),
                    i < n,
                    k <= n,
                    account_ids_distinct(book@),
                    parents_resolve(book@),
                    !done ==> cur < n && ancestor(book@, i as int, k as nat) == Some(cur as int),
                    done ==> ancestor(book@, i as int, k as nat) is None,
                    forall|j: nat| 1 <= j <= k ==> #[trigger] ancestor(book@, i as int, j) != Some(i as int),
                decreases n - k,
            {
                let next = parent_index(book, cur);
                k = k + 1;
                match next {
                    Some(p) => {
                        if p == i {
                            return Err(Violation::ParentCycle);
                        }
                        cur = p;
                    },
                    None => {
                        done = true;
                    },
                }
            }
            proof {
                assert forall|j: nat| 1 <= j <= n implies #[trigger] ancestor(book@, i as int, j) != Some(i as int) by {
                    if j > k {
                        lemma_ancestor_none_after(book@, i as int, k as nat, j);
                    }
                }
            }
            i = i + 1;
        }
        Ok(())
    }
}

/// Once the walk from `i` stops at a root, it stays stopped.
proof fn lemma_ancestor_none_after(book: Seq<Account>, i: int, k: nat, j: nat)
    requires
        ancestor(book, i, k) is None || k >= book.len(),
        k <= j,
        j <= book.len(),
    ensures
        k < j ==> ancestor(book, i, j) is None,
    decreases j - k,
{
    if k < j {
        if ancestor(book, i, k) is None {
            if k + 1 < j {
                lemma_ancestor_none_after(book, i, k + 1, j);
            }
        }
    }
}

/// The position of the account with identifier `id`, if the book holds one.
pub fn find_account(book: &Vec<Account>, id: &String) -> (r: Option<usize>)
    ensures
        r matches Some(j) ==> j < book@.len() && book@[j as int].id.0@ == id@,
        r is None <==> !holds_account(book@, id@),
{
    let mut j: usize = 0;
    while j < book.len()
        invariant
            j <= book@.len(),
            forall|x: int| 0 <= x < j ==> book@[x].id.0@ != id@,
        decreases book@.len() - j,
    {
        if book[j].id.0 == *id {
            return Some(j);
        }
        j = j + 1;
    }
    None
}

/// The position of account `i`'s parent.
fn parent_index(book: &Vec<Account>, i: usize) -> (r: Option<usize>)
    requires
        i < book@.len(),
        account_ids_distinct(book@),
        parents_resolve(book@),
    ensures
        r matches Some(p) ==> p < book@.len(),
        r == match parent_of(book@, i as int) { Some(p) => Some(p as usize), None => None::<usize> },
{
    match &book[i].parent_id {
        Some(p) => {
            let r = find_account(book, p);
            proof {
                let ghost s = book@;
                assert(holds_account(s, s[i as int].parent_id->0@));
                let c = choose|j: int| 0 <= j < s.len() && (#[trigger] s[j].id.0@) == s[i as int].parent_id->0@;
                let f = r->0 as int;
                if c < f {
                    assert(s[c].id.0@ != s[f].id.0@);
                } else if f < c {
                    assert(s[f].id.0@ != s[c].id.0@);
                }
            }
            r
        },
        None => None,
    }
}

/// In a ledger that validation accepts, the accounts form a forest: every parent
/// reference names an account of the ledger, and no chain of parents leads back to where
/// it started.
pub proof fn lemma_accepted_ledger_is_forest(l: Ledger)
    requires
        l.outcome() is Ok,
    ensures
        parents_resolve(l.book@),
        !has_cycle(l.book@),
        forall|i: int, k: nat| 0 <= i < l.book@.len() && 1 <= k ==> #[trigger] ancestor(l.book@, i, k) != Some(i),
{
    assert forall|i: int, k: nat| 0 <= i < l.book@.len() && 1 <= k implies #[trigger] ancestor(l.book@, i, k) != Some(i) by {
        if ancestor(l.book@, i, k) == Some(i) {
            lemma_short_cycle(l.book@, i, k);
        }
    }
}

/// A walk that returns to its start passes through a cycle no longer than the book.
proof fn lemma_short_cycle(book: Seq<Account>, i: int, k: nat)
    requires
        0 <= i < book.len(),
        1 <= k,
        ancestor(book, i, k) == Some(i),
    ensures
        has_cycle(book),
{
    let n = book.len();
    if k <= n {
        assert(ancestor(book, i, k) == Some(i));
    } else {
        lemma_walk_in_book(book, i, k);
        let f = |x: int| ancestor(book, i, x as nat)->0;
        assert forall|x: int| 0 <= x <= n implies 0 <= #[trigger] f(x) < n by {
            assert(ancestor(book, i, x as nat) is Some);
        }
        let (a, b) = lemma_pigeonhole(f, n as int);
        let start = f(a);
        assert(ancestor(book, i, a as nat) == Some(start));
        lemma_ancestor_shift(book, i, a as nat, (b - a) as nat);
        assert(ancestor(book, i, b as nat) == Some(f(b)));
        assert(ancestor(book, start, (b - a) as nat) == Some(start));
        assert(0 <= start < n && 1 <= (b - a) as nat <= n);
    }
}

/// Every account that a walk of `k` steps from `i` passes is in the book.
proof fn lemma_walk_in_book(book: Seq<Account>, i: int, k: nat)
    requires
        0 <= i < book.len(),
        ancestor(book, i, k) is Some,
    ensures
        forall|x: nat| x <= k ==> (#[trigger] ancestor(book, i, x)) is Some && 0 <= ancestor(book, i, x)->0 < book.len(),
    decreases k,
{
    if k > 0 {
        lemma_walk_in_book(book, i, (k - 1) as nat);
        let a = ancestor(book, i, (k - 1) as nat)->0;
        if parent_of(book, a) is Some {
            let p = book[a].parent_id->0@;
            assert(holds_account(book, p));
            let c = choose|j: int| 0 <= j < book.len() && (#[trigger] book[j].id.0@) == p;
        }
    }
}

/// Walking `a + d` steps is walking `a` steps and then `d` more.
proof fn lemma_ancestor_shift(book: Seq<Account>, i: int, a: nat, d: nat)
    requires
        ancestor(book, i, a) is Some,
    ensures
        ancestor(book, i, a + d) == ancestor(book, ancestor(book, i, a)->0, d),
    decreases d,
{
    if d > 0 {
        lemma_ancestor_shift(book, i, a, (d - 1) as nat);
        assert((a + d - 1) as nat == a + (d - 1) as nat);
    }
}

/// `n + 1` values in a range of `n` values hold a repetition.
proof fn lemma_pigeonhole(f: spec_fn(int) -> int, n: int) -> (r: (int, int))
    requires
        n >= 0,
        forall|x: int| 0 <= x <= n ==> 0 <= #[trigger] f(x) < n,
    ensures
        0 <= r.0 < r.1 <= n,
        f(r.0) == f(r.1),
    decreases n,
{
    if n == 0 {
        let x0: int = 0;
        assert(0 <= x0 <= n);
        assert(0 <= f(x0) < n);
        (0, 0)
    } else if exists|x: int| 0 <= x < n && #[trigger] f(x) == f(n) {
        let x = choose|x: int| 0 <= x < n && #[trigger] f(x) == f(n);
        (x, n)
    } else {
        let g = |x: int| if f(x) == n - 1 { f(n) } else { f(x) };
        assert forall|x: int| 0 <= x <= n - 1 implies 0 <= #[trigger] g(x) < n - 1 by {
            assert(f(x) != f(n));
            assert(0 <= f(x) < n);
        }
        let (a, b) = lemma_pigeonhole(g, n - 1);
        assert(f(a) != f(n) && f(b) != f(n));
        (a, b)
    }
}

} // verus!
