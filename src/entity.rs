//! The generic entity-store contract: create, read, list, update and delete entities by
//! identifier, validating every entity before it is stored.
use crate::error::{Error, Violation};
use crate::journal::{fine_total, keeps_reconciled, lemma_accepted_journal_balances, Journal};
use crate::ledger::{ancestor, lemma_accepted_ledger_is_forest, parents_resolve, Ledger};
use crate::time::Timestamp;
use vstd::prelude::*;
use vstd::map::*;
use vstd::string::*;

verus! {

/// What an entity store needs of the entities it holds.
pub trait Entity: Sized {
    /// The identifier that the entity declares for itself.
    spec fn key(&self) -> Seq<char>;

    /// When the entity was created.
    spec fn created_at(&self) -> Timestamp;

    /// Whether the entity is acceptable, and if not, the first rule it breaks.
    spec fn outcome(&self) -> Result<(), Violation>;

    /// The entity is reconciled or signed and can no longer be deleted.
    spec fn frozen(&self) -> bool;

    /// Whether `new` may replace `old` without touching what `old` has made immutable.
    spec fn replaceable(old: &Self, new: &Self) -> bool;

    /// Whether the rules that depend on the time allow `new` to replace `old` at `now`.
    spec fn timely(old: &Self, new: &Self, now: Timestamp) -> Result<(), Violation>;

    fn identifier(&self) -> (r: String)
        ensures
            r@ == self.key(),
    ;

    fn label(&self) -> (r: String);

    fn created(&self) -> (r: Timestamp)
        ensures
            r == self.created_at(),
    ;

    fn validate(&self) -> (r: Result<(), Violation>)
        ensures
            r == self.outcome(),
    ;

    fn is_frozen(&self) -> (r: bool)
        ensures
            r == self.frozen(),
    ;

    fn may_replace(old: &Self, new: &Self) -> (r: bool)
        ensures
            r == Self::replaceable(old, new),
    ;

    fn check_timely(old: &Self, new: &Self, now: Timestamp) -> (r: Result<(), Violation>)
        ensures
            r == Self::timely(old, new, now),
    ;
}

impl Entity for Journal {
    open spec fn key(&self) -> Seq<char> {
        self.name@
    }

    open spec fn created_at(&self) -> Timestamp {
        self.created
    }

    open spec fn outcome(&self) -> Result<(), Violation> {
        Journal::outcome(self)
    }

    open spec fn frozen(&self) -> bool {
        self.spec_is_frozen()
    }

    open spec fn replaceable(old: &Journal, new: &Journal) -> bool {
        Journal::replaceable(old, new)
    }

    open spec fn timely(old: &Journal, new: &Journal, now: Timestamp) -> Result<(), Violation> {
        Journal::window_outcome(old, new, now)
    }

    fn identifier(&self) -> (r: String) {
        self.name.clone()
    }

    fn label(&self) -> (r: String) {
        self.name.clone()
    }

    fn created(&self) -> (r: Timestamp) {
        self.created
    }

    fn validate(&self) -> (r: Result<(), Violation>) {
        Journal::validate(self)
    }

    fn is_frozen(&self) -> (r: bool) {
        Journal::is_frozen(self)
    }

    fn may_replace(old: &Journal, new: &Journal) -> (r: bool) {
        old.may_be_replaced_by(new)
    }

    fn check_timely(old: &Journal, new: &Journal, now: Timestamp) -> (r: Result<(), Violation>) {
        old.window_check(new, now)
    }
}

impl Entity for Ledger {
    open spec fn key(&self) -> Seq<char> {
        self.kind.label()
    }

    open spec fn created_at(&self) -> Timestamp {
        self.created
    }

    open spec fn outcome(&self) -> Result<(), Violation> {
        Ledger::outcome(self)
    }

    /// A ledger holds no reconciliation or signature.
    open spec fn frozen(&self) -> bool {
        false
    }

    open spec fn replaceable(old: &Ledger, new: &Ledger) -> bool {
        true
    }

    open spec fn timely(old: &Ledger, new: &Ledger, now: Timestamp) -> Result<(), Violation> {
        Ok(())
    }

    fn identifier(&self) -> (r: String) {
        self.kind.to_label()
    }

    fn label(&self) -> (r: String) {
        self.description.clone()
    }

    fn created(&self) -> (r: Timestamp) {
        self.created
    }

    fn validate(&self) -> (r: Result<(), Violation>) {
        Ledger::validate(self)
    }

    fn is_frozen(&self) -> (r: bool) {
        false
    }

    fn may_replace(old: &Ledger, new: &Ledger) -> (r: bool) {
        true
    }

    fn check_timely(old: &Ledger, new: &Ledger, now: Timestamp) -> (r: Result<(), Violation>) {
        Ok(())
    }
}

/// The map from identifiers to entities that a list of entries describes.
pub open spec fn entries_map<E>(s: Seq<(Seq<char>, E)>) -> Map<Seq<char>, E>
    decreases s.len(),
{
    if s.len() == 0 {
        Map::empty()
    } else {
        entries_map(s.drop_last()).insert(s.last().0, s.last().1)
    }
}

/// No two entries share an identifier.
pub open spec fn keys_distinct<E>(s: Seq<(Seq<char>, E)>) -> bool {
    forall|i: int, j: int| 0 <= i < j < s.len() ==> s[i].0 != s[j].0
}

pub proof fn lemma_entries_map<E>(s: Seq<(Seq<char>, E)>)
    requires
        keys_distinct(s),
    ensures
        forall|k: Seq<char>| #[trigger] entries_map(s).contains_key(k) <==> exists|i: int| 0 <= i < s.len() && s[i].0 == k,
        forall|i: int| 0 <= i < s.len() ==> #[trigger] entries_map(s)[s[i].0] == s[i].1,
    decreases s.len(),
{
    if s.len() > 0 {
        let p = s.drop_last();
        let last = s[s.len() - 1];
        assert(keys_distinct(p));
        lemma_entries_map(p);
        let m = entries_map(p);
        assert(entries_map(s) == m.insert(last.0, last.1));
        assert forall|k: Seq<char>| #[trigger] entries_map(s).contains_key(k) <==> exists|i: int| 0 <= i < s.len() && s[i].0 == k by {
            if entries_map(s).contains_key(k) {
                if k == last.0 {
                    assert(s[s.len() - 1].0 == k);
                } else {
                    assert(m.contains_key(k));
                    let i = choose|i: int| 0 <= i < p.len() && p[i].0 == k;
                    assert(s[i] == p[i]);
                }
            }
            if exists|i: int| 0 <= i < s.len() && s[i].0 == k {
                let i = choose|i: int| 0 <= i < s.len() && s[i].0 == k;
                if i < s.len() - 1 {
                    assert(p[i] == s[i]);
                    assert(m.contains_key(p[i].0));
                }
            }
        }
        assert forall|i: int| 0 <= i < s.len() implies #[trigger] entries_map(s)[s[i].0] == s[i].1 by {
            if i < s.len() - 1 {
                assert(p[i] == s[i]);
                assert(s[i].0 != s[s.len() - 1].0);
                assert(m[p[i].0] == p[i].1);
            }
        }
    }
}

/// How many entities one call of `list` hands out at most.
pub const PAGE_SIZE: usize = 50;

/// Where a listing continues: the position of the next entity to hand out.
#[derive(Clone, Copy, Debug, PartialEq, Eq, Structural)]
pub struct PageToken {
    pub position: usize,
}

/// An entity store held in memory: entities by identifier, kept in order of creation time.
pub struct EntityStore<E> {
    entries: Vec<(String, E)>,
}

impl<E: Entity> EntityStore<E> {
    /// The entries: identifier and entity, in the order in which they are listed.
    pub closed spec fn view(&self) -> Seq<(Seq<char>, E)> {
        self.entries@.map_values(|e: (String, E)| (e.0@, e.1))
    }

    /// The entities by identifier.
    pub open spec fn map(&self) -> Map<Seq<char>, E> {
        entries_map(self@)
    }

    /// Identifiers are distinct, every entity is acceptable, and entries are ordered by
    /// creation time.
    pub open spec fn wf(&self) -> bool {
        &&& keys_distinct(self@)
        &&& forall|i: int| 0 <= i < self@.len() ==> (#[trigger] self@[i]).1.outcome() is Ok
        &&& forall|i: int, j: int| 0 <= i < j < self@.len() ==> self@[i].1.created_at().millis <= self@[j].1.created_at().millis
    }

    /// The first position and the end of the page that starts at `page`.
    pub open spec fn page_start(&self, page: Option<PageToken>) -> int {
        match page {
            Some(t) => t.position as int,
            None => 0,
        }
    }

    pub open spec fn page_end(&self, page: Option<PageToken>) -> int {
        let start = self.page_start(page);
        if start >= self@.len() {
            start
        } else if start + PAGE_SIZE < self@.len() {
            start + PAGE_SIZE
        } else {
            self@.len() as int
        }
    }

    /// The entities of the page that starts at `page`.
    pub open spec fn page_items(&self, page: Option<PageToken>) -> Seq<E> {
        if self.page_start(page) >= self@.len() {
            Seq::empty()
        } else {
            self@.subrange(self.page_start(page), self.page_end(page)).map_values(|e: (Seq<char>, E)| e.1)
        }
    }

    /// The token for the page after it, or `page` itself once the listing is exhausted.
    pub open spec fn page_next(&self, page: Option<PageToken>) -> Option<PageToken> {
        if self.page_start(page) >= self@.len() {
            page
        } else {
            Some(PageToken { position: self.page_end(page) as usize })
        }
    }

    pub fn new() -> (r: EntityStore<E>)
        ensures
            r@ == Seq::<(Seq<char>, E)>::empty(),
            r.map() == Map::<Seq<char>, E>::empty(),
            r.wf(),
    {
        let r = EntityStore { entries: Vec::new() };
        assert(r@ =~= Seq::<(Seq<char>, E)>::empty());
        r
    }

    pub fn len(&self) -> (r: usize)
        ensures
            r == self@.len(),
    {
        self.entries.len()
    }

    /// The position of the entry with identifier `id`.
    fn position(&self, id: &str) -> (r: Option<usize>)
        requires
            self.wf(),
        ensures
            r matches Some(i) ==> i < self@.len() && self@[i as int].0 == id@,
            r is None <==> !self.map().contains_key(id@),
    {
        proof {
            lemma_entries_map(self@);
        }
        let key = String::from_str(id);
        let mut i: usize = 0;
        while i < self.entries.len()
            invariant
                key@ == id@,
                self.wf(),
                i <= self@.len() == self.entries@.len(),
                self@ == self.entries@.map_values(|e: (String, E)| (e.0@, e.1)),
                forall|x: int| 0 <= x < i ==> self@[x].0 != id@,
            decreases self@.len() - i,
        {
            if self.entries[i].0 == key {
                proof {
                    lemma_entries_map(self@);
                }
                assert(self@[i as int].0 == id@);
                assert(self.map().contains_key(self@[i as int].0));
                return Some(i);
            }
            i = i + 1;
        }
        None
    }

    /// Inserts a new entry, keeping the order of creation times; among equal times the new
    /// entry comes last.
    fn insert_sorted(&mut self, id: String, entity: E)
        requires
            old(self).wf(),
            !old(self).map().contains_key(id@),
            entity.outcome() is Ok,
        ensures
            final(self).wf(),
            final(self).map() == old(self).map().insert(id@, entity),
    {
        let t = entity.created();
        let mut p: usize = 0;
        while p < self.entries.len() && self.entries[p].1.created().millis <= t.millis
            invariant
                p <= self@.len() == self.entries@.len(),
                self@ == self.entries@.map_values(|e: (String, E)| (e.0@, e.1)),
                t == entity.created_at(),
                forall|x: int| 0 <= x < p ==> self@[x].1.created_at().millis <= t.millis,
            decreases self@.len() - p,
        {
            p = p + 1;
        }
        let ghost before = self@;
        proof {
            lemma_entries_map(before);
        }
        self.entries.insert(p, (id, entity));
        proof {
            let after = self@;
            assert(after =~= before.insert(p as int, (id@, entity)));
            assert forall|i: int, j: int| 0 <= i < j < after.len() implies after[i].0 != after[j].0 by {
                if i < p && j > p {
                    assert(after[j] == before[j - 1]);
                } else if i == p {
                    assert(after[j] == before[j - 1]);
                    assert(entries_map(before).contains_key(before[j - 1].0));
                } else if j == p {
                    assert(entries_map(before).contains_key(before[i].0));
                } else if i > p {
                    assert(after[i] == before[i - 1]);
                    assert(after[j] == before[j - 1]);
                }
            }
            assert(keys_distinct(after));
            lemma_entries_map(after);
            assert_maps_equal!(entries_map(after), entries_map(before).insert(id@, entity), k => {
                if entries_map(after).contains_key(k) {
                    let i = choose|i: int| 0 <= i < after.len() && after[i].0 == k;
                    if i < p {
                        assert(before[i].0 == k);
                    } else if i > p {
                        assert(before[i - 1].0 == k);
                    }
                }
                if k == id@ {
                    assert(after[p as int].0 == k);
                    assert(entries_map(after)[after[p as int].0] == after[p as int].1);
                } else if entries_map(before).contains_key(k) {
                    let i = choose|i: int| 0 <= i < before.len() && before[i].0 == k;
                    assert(entries_map(before)[before[i].0] == before[i].1);
                    if i < p {
                        assert(after[i] == before[i]);
                        assert(entries_map(after)[after[i].0] == after[i].1);
                    } else {
                        assert(after[i + 1] == before[i]);
                        assert(entries_map(after)[after[i + 1].0] == after[i + 1].1);
                    }
                }
            });
            assert forall|i: int, j: int| 0 <= i < j < after.len() implies after[i].1.created_at().millis
                <= after[j].1.created_at().millis by {
                if j > p {
                    assert(after[j] == before[j - 1]);
                    assert(before[p as int].1.created_at().millis > t.millis);
                    if j - 1 > p {
                        assert(before[p as int].1.created_at().millis <= before[j - 1].1.created_at().millis);
                    }
                }
                if i > p {
                    assert(after[i] == before[i - 1]);
                }
                if i < p {
                    assert(after[i] == before[i]);
                }
            }
        }
    }

    /// Removes the entry at `p`.
    fn remove_at(&mut self, p: usize) -> (r: (String, E))
        requires
            old(self).wf(),
            p < old(self)@.len(),
        ensures
            final(self).wf(),
            r.0@ == old(self)@[p as int].0,
            final(self).map() == old(self).map().remove(old(self)@[p as int].0),
    {
        let ghost before = self@;
        proof {
            lemma_entries_map(before);
        }
        let r = self.entries.remove(p);
        proof {
            let after = self@;
            assert(after =~= before.remove(p as int));
            assert(keys_distinct(after));
            lemma_entries_map(after);
            let key = before[p as int].0;
            assert_maps_equal!(entries_map(after), entries_map(before).remove(key), k => {
                if entries_map(after).contains_key(k) {
                    let i = choose|i: int| 0 <= i < after.len() && after[i].0 == k;
                    if i < p {
                        assert(before[i].0 == k);
                    } else {
                        assert(before[i + 1].0 == k);
                    }
                }
                if entries_map(before).contains_key(k) && k != key {
                    let i = choose|i: int| 0 <= i < before.len() && before[i].0 == k;
                    assert(entries_map(before)[before[i].0] == before[i].1);
                    if i < p {
                        assert(after[i] == before[i]);
                        assert(entries_map(after)[after[i].0] == after[i].1);
                    } else {
                        assert(after[i - 1] == before[i]);
                        assert(entries_map(after)[after[i - 1].0] == after[i - 1].1);
                    }
                }
            });
            assert forall|i: int, j: int| 0 <= i < j < after.len() implies after[i].1.created_at().millis
                <= after[j].1.created_at().millis by {
                if i < p {
                    assert(after[i] == before[i]);
                } else {
                    assert(after[i] == before[i + 1]);
                }
                if j < p {
                    assert(after[j] == before[j]);
                } else {
                    assert(after[j] == before[j + 1]);
                }
            }
        }
        r
    }

    /// The entity stored under `id`; a missing identifier gives `None`, never an error.
    pub fn get_by_id(&self, id: &str) -> (r: Option<&E>)
        requires
            self.wf(),
        ensures
            (r is Some) == self.map().contains_key(id@),
            r matches Some(e) ==> *e == self.map()[id@],
    {
        match self.position(id) {
            Some(i) => {
                proof {
                    lemma_entries_map(self@);
                }
                Some(&self.entries[i].1)
            },
            None => None,
        }
    }

    /// The page of entities, in order of creation time, that starts at `page` (the start
    /// when `None`), and the token of the next page; once the listing is exhausted, the
    /// token given comes back unchanged.
    pub fn list(&self, page: Option<PageToken>) -> (r: (Vec<&E>, Option<PageToken>))
        ensures
            r.0@.len() == self.page_items(page).len(),
            forall|i: int| 0 <= i < r.0@.len() ==> *r.0@[i] == self.page_items(page)[i],
            r.1 == self.page_next(page),
    {
        let start: usize = match page {
            Some(t) => t.position,
            None => 0,
        };
        let mut items: Vec<&E> = Vec::new();
        if start >= self.entries.len() {
            return (items, page);
        }
        let end: usize = if self.entries.len() >= PAGE_SIZE && start < self.entries.len() - PAGE_SIZE {
            start + PAGE_SIZE
        } else {
            self.entries.len()
        };
        assert(end == self.page_end(page));
        let ghost want = self.page_items(page);
        let mut j: usize = start;
        while j < end
            invariant
                start <= j <= end <= self@.len() == self.entries@.len(),
                start == self.page_start(page),
                end == self.page_end(page),
                start < self@.len(),
                self@ == self.entries@.map_values(|e: (String, E)| (e.0@, e.1)),
                want == self.page_items(page),
                want.len() == end - start,
                items@.len() == j - start,
                forall|i: int| 0 <= i < items@.len() ==> *items@[i] == want[i],
            decreases end - j,
        {
            items.push(&self.entries[j].1);
            j = j + 1;
        }
        (items, Some(PageToken { position: end }))
    }

    /// Stores `entity` under `id`. Fails with `DuplicateIdentifier` if `id` is taken, else
    /// with `InvariantViolation` if the entity breaks a domain rule.
    pub fn create_with_id(&mut self, entity: E, id: String) -> (r: Result<(), Error>)
        requires
            old(self).wf(),
        ensures
            final(self).wf(),
            old(self).map().contains_key(id@) ==> (r matches Err(Error::DuplicateIdentifier { id: x }) && x@ == id@),
            !old(self).map().contains_key(id@) && entity.outcome() is Err ==> r == Err::<(), Error>(
                Error::InvariantViolation { violation: entity.outcome()->Err_0 },
            ),
            r is Err ==> final(self)@ == old(self)@,
            r is Ok <==> !old(self).map().contains_key(id@) && entity.outcome() is Ok,
            r is Ok ==> final(self).map() == old(self).map().insert(id@, entity),
    {
        if self.position(id.as_str()).is_some() {
            return Err(Error::DuplicateIdentifier { id });
        }
        match entity.validate() {
            Err(v) => Err(Error::InvariantViolation { violation: v }),
            Ok(_) => {
                self.insert_sorted(id, entity);
                Ok(())
            },
        }
    }

    /// Stores `entity` under the identifier it declares and returns that identifier. Fails
    /// as `create_with_id` does.
    pub fn create(&mut self, entity: E) -> (r: Result<String, Error>)
        requires
            old(self).wf(),
        ensures
            final(self).wf(),
            old(self).map().contains_key(entity.key()) ==> (r matches Err(Error::DuplicateIdentifier { id: x }) && x@ == entity.key()),
            !old(self).map().contains_key(entity.key()) && entity.outcome() is Err ==> r == Err::<String, Error>(
                Error::InvariantViolation { violation: entity.outcome()->Err_0 },
            ),
            r is Err ==> final(self)@ == old(self)@,
            r is Ok <==> !old(self).map().contains_key(entity.key()) && entity.outcome() is Ok,
            r matches Ok(id) ==> id@ == entity.key() && final(self).map() == old(self).map().insert(entity.key(), entity),
    {
        let id = entity.identifier();
        let key = id.clone();
        match self.create_with_id(entity, id) {
            Ok(_) => Ok(key),
            Err(e) => Err(e),
        }
    }

    /// Replaces the stored entity that has `entity`'s identifier. Fails with `NotFound` if
    /// there is none, with `Immutable` if the stored entity's reconciled or signed parts
    /// would change, with `InvariantViolation` if `entity` breaks a domain rule, and with
    /// `InvariantViolation` if a rule of time forbids the change at `now`.
    pub fn update(&mut self, entity: E, now: Timestamp) -> (r: Result<(), Error>)
        requires
            old(self).wf(),
        ensures
            final(self).wf(),
            r is Err ==> final(self)@ == old(self)@,
            !old(self).map().contains_key(entity.key()) ==> (r matches Err(Error::NotFound { id: x }) && x@ == entity.key()),
            old(self).map().contains_key(entity.key()) && !E::replaceable(&old(self).map()[entity.key()], &entity)
                ==> (r matches Err(Error::Immutable { id: x }) && x@ == entity.key()),
            old(self).map().contains_key(entity.key()) && E::replaceable(&old(self).map()[entity.key()], &entity)
                && entity.outcome() is Err ==> r == Err::<(), Error>(
                Error::InvariantViolation { violation: entity.outcome()->Err_0 },
            ),
            old(self).map().contains_key(entity.key()) && E::replaceable(&old(self).map()[entity.key()], &entity)
                && entity.outcome() is Ok
                && E::timely(&old(self).map()[entity.key()], &entity, now) is Err ==> r == Err::<(), Error>(
                Error::InvariantViolation { violation: E::timely(&old(self).map()[entity.key()], &entity, now)->Err_0 },
            ),
            r is Ok <==> old(self).map().contains_key(entity.key()) && entity.outcome() is Ok
                && E::replaceable(&old(self).map()[entity.key()], &entity)
                && E::timely(&old(self).map()[entity.key()], &entity, now) is Ok,
            r is Ok ==> final(self).map() == old(self).map().insert(entity.key(), entity),
    {
        let id = entity.identifier();
        let p = match self.position(id.as_str()) {
            Some(p) => p,
            None => {
                return Err(Error::NotFound { id });
            },
        };
        proof {
            lemma_entries_map(self@);
        }
        if !E::may_replace(&self.entries[p].1, &entity) {
            return Err(Error::Immutable { id });
        }
        match entity.validate() {
            Err(v) => {
                return Err(Error::InvariantViolation { violation: v });
            },
            Ok(_) => {},
        }
        match E::check_timely(&self.entries[p].1, &entity, now) {
            Err(v) => {
                return Err(Error::InvariantViolation { violation: v });
            },
            Ok(_) => {},
        }
        let ghost m0 = self.map();
        let _ = self.remove_at(p);
        proof {
            assert(!self.map().contains_key(id@));
        }
        self.insert_sorted(id, entity);
        proof {
            assert_maps_equal!(self.map(), m0.insert(entity.key(), entity));
        }
        Ok(())
    }

    /// Removes the entity stored under `id`. Fails with `NotFound` if there is none and with
    /// `Immutable` if it is reconciled or signed.
    pub fn delete(&mut self, id: &str) -> (r: Result<(), Error>)
        requires
            old(self).wf(),
        ensures
            final(self).wf(),
            r is Err ==> final(self)@ == old(self)@,
            !old(self).map().contains_key(id@) ==> (r matches Err(Error::NotFound { id: x }) && x@ == id@),
            old(self).map().contains_key(id@) && old(self).map()[id@].frozen() ==> (r matches Err(Error::Immutable { id: x }) && x@ == id@),
            r is Ok <==> old(self).map().contains_key(id@) && !old(self).map()[id@].frozen(),
            r is Ok ==> final(self).map() == old(self).map().remove(id@),
    {
        let p = match self.position(id) {
            Some(p) => p,
            None => {
                return Err(Error::NotFound { id: String::from_str(id) });
            },
        };
        proof {
            lemma_entries_map(self@);
        }
        if self.entries[p].1.is_frozen() {
            return Err(Error::Immutable { id: String::from_str(id) });
        }
        let _ = self.remove_at(p);
        Ok(())
    }
}

/// Everything a well-formed table holds is acceptable: only validated entities get in.
pub proof fn lemma_stored_entity_accepted<E: Entity>(t: &EntityStore<E>, id: Seq<char>)
    requires
        t.wf(),
        t.map().contains_key(id),
    ensures
        t.map()[id].outcome() is Ok,
{
    lemma_entries_map(t@);
    let i = choose|i: int| 0 <= i < t@.len() && t@[i].0 == id;
    assert(t.map()[t@[i].0] == t@[i].1);
}

/// Every transaction of every journal that a journal store holds balances: its splits
/// convert to the journal's currency and sum to exactly zero.
pub proof fn lemma_stored_transactions_balance(t: &EntityStore<Journal>, id: Seq<char>, i: int)
    requires
        t.wf(),
        t.map().contains_key(id),
        0 <= i < t.map()[id].transactions@.len(),
    ensures
        fine_total(t.map()[id].transactions@[i].splits@, t.map()[id].reference()) == 0,
        forall|k: int| 0 <= k < t.map()[id].transactions@[i].splits@.len()
            ==> (#[trigger] t.map()[id].transactions@[i].splits@[k]).reference_fine(t.map()[id].reference()) is Some,
{
    lemma_stored_entity_accepted(t, id);
    lemma_accepted_journal_balances(t.map()[id], i);
}

/// In every ledger that a ledger store holds, parents resolve and no chain of parents
/// returns to its start.
pub proof fn lemma_stored_ledgers_are_forests(t: &EntityStore<Ledger>, id: Seq<char>)
    requires
        t.wf(),
        t.map().contains_key(id),
    ensures
        parents_resolve(t.map()[id].book@),
        forall|i: int, k: nat| 0 <= i < t.map()[id].book@.len() && 1 <= k ==> #[trigger] ancestor(t.map()[id].book@, i, k) != Some(i),
{
    lemma_stored_entity_accepted(t, id);
    lemma_accepted_ledger_is_forest(t.map()[id]);
}

/// Listing is repeatable: with the same contents and the same token, `list` hands out the
/// same entities and the same next token.
pub proof fn lemma_list_repeatable<E: Entity>(a: &EntityStore<E>, b: &EntityStore<E>, page: Option<PageToken>)
    requires
        a@ == b@,
    ensures
        a.page_items(page) == b.page_items(page),
        a.page_next(page) == b.page_next(page),
{
}

/// What `create_with_id` stores under an identifier is what `get_by_id` then returns for it.
pub proof fn lemma_round_trip<E: Entity>(before: &EntityStore<E>, after: &EntityStore<E>, entity: E, id: Seq<char>)
    requires
        after.map() == before.map().insert(id, entity),
    ensures
        after.map().contains_key(id),
        after.map()[id] == entity,
{
}

/// A journal with a reconciled split cannot be deleted, and cannot be replaced by a version
/// in which that split is missing or changed: both fail with `Immutable`.
pub proof fn lemma_reconciled_split_is_immutable(old: Journal, new: Journal, i: int, j: int)
    requires
        0 <= i < old.transactions@.len(),
        0 <= j < old.transactions@[i].splits@.len(),
        old.transactions@[i].splits@[j].reconciled is Some,
        forall|k: int|
            0 <= k < new.transactions@.len() && (#[trigger] new.transactions@[k].id.0@) == old.transactions@[i].id.0@
                ==> !(j < new.transactions@[k].splits@.len() && new.transactions@[k].splits@[j]@ == old.transactions@[i].splits@[j]@),
    ensures
        old.frozen(),
        !<Journal as Entity>::replaceable(&old, &new),
{
    assert(old.transactions@[i].splits@[j].reconciled is Some);
    if keeps_reconciled(old.transactions@, new.transactions@) {
        assert(old.transactions@[i].splits@[j].reconciled is Some);
    }
}

} // verus!
