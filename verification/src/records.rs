//! Storage of records with unique identifiers, and the orderings and sums that
//! queries over stored records use.
use vstd::prelude::*;
use crate::ids::EntityId;
use crate::queries::{Order, insert_in_order, lemma_prefix_step, lemma_stable_sort_push, relation, stable_sort};
use crate::time::Timestamp;

verus! {

/// A stored record: it has an identifier and can be copied.
pub trait Record: Sized {
    /// The record's identifier.
    spec fn key(&self) -> EntityId;

    /// The record's identifier.
    fn record_id(&self) -> (r: EntityId)
        ensures
            r == self.key();

    /// A copy of the record.
    fn copy_record(&self) -> (r: Self)
        ensures
            r == *self;
}

/// Whether no two records of `s` share an identifier.
pub open spec fn unique_keys<T: Record>(s: Seq<T>) -> bool {
    forall|i: int, j: int| 0 <= i < s.len() && 0 <= j < s.len() && i != j
        ==> #[trigger] s[i].key() != #[trigger] s[j].key()
}

/// Whether some record of `s` has identifier `id`.
pub open spec fn has_key<T: Record>(s: Seq<T>, id: EntityId) -> bool {
    exists|i: int| 0 <= i < s.len() && #[trigger] s[i].key() == id
}

/// The record of `s` with identifier `id` (the last one, should there be several).
pub open spec fn lookup<T: Record>(s: Seq<T>, id: EntityId) -> Option<T>
    decreases s.len(),
{
    if s.len() == 0 {
        None
    } else if s.last().key() == id {
        Some(s.last())
    } else {
        lookup(s.drop_last(), id)
    }
}

/// `lookup` finds a record exactly when one has the identifier, and with unique
/// identifiers it is the record at that identifier's position.
pub proof fn lemma_lookup<T: Record>(s: Seq<T>, id: EntityId)
    ensures
        lookup(s, id) is Some <==> has_key(s, id),
        lookup(s, id) matches Some(r) ==> r.key() == id,
        unique_keys(s) ==> forall|i: int| 0 <= i < s.len() && #[trigger] s[i].key() == id
            ==> lookup(s, id) == Some(s[i]),
    decreases s.len(),
{
    if s.len() > 0 {
        lemma_lookup(s.drop_last(), id);
        if s.last().key() != id {
            if has_key(s, id) {
                let i = choose|i: int| 0 <= i < s.len() && #[trigger] s[i].key() == id;
                assert(s.drop_last()[i].key() == id);
            }
            if has_key(s.drop_last(), id) {
                let i = choose|i: int| 0 <= i < s.drop_last().len() && #[trigger] s.drop_last()[i].key() == id;
                assert(s[i].key() == id);
            }
        } else {
            assert(s[s.len() - 1].key() == id);
        }
    }
}

/// A condition on records that queries select by.
pub trait Filter<T> {
    /// Whether `t` meets the condition.
    spec fn accepts(&self, t: T) -> bool;

    /// Whether `t` meets the condition.
    fn test(&self, t: &T) -> (r: bool)
        ensures
            r == self.accepts(*t);
}

/// The condition of `f`, as a predicate.
pub open spec fn accepted<T, F: Filter<T>>(f: F) -> spec_fn(T) -> bool {
    |t: T| f.accepts(t)
}

/// A record that an update rewrites: which stored fields an update keeps and which it
/// takes from the new version.
pub trait Revisable: Record {
    /// The stored record `stored` after an update with `incoming`.
    spec fn revised(stored: Self, incoming: Self) -> Self;

    /// The stored record after an update with `incoming`.
    fn revise(&self, incoming: &Self) -> (r: Self)
        ensures
            r == Self::revised(*self, *incoming);

    /// An update keeps the identifier.
    proof fn lemma_revised_key(stored: Self, incoming: Self)
        ensures
            Self::revised(stored, incoming).key() == stored.key();
}

/// A record that is soft-deleted: marked deleted at an instant rather than removed.
pub trait Retirable: Record {
    /// Whether the record is soft-deleted.
    spec fn retired(&self) -> bool;

    /// The record soft-deleted at instant `now`.
    spec fn retired_at(self, now: Timestamp) -> Self;

    /// Whether the record is soft-deleted.
    fn is_retired(&self) -> (r: bool)
        ensures
            r == self.retired();

    /// The record soft-deleted at instant `now`.
    fn retire(&self, now: Timestamp) -> (r: Self)
        ensures
            r == self.retired_at(now);

    /// Soft deletion keeps the identifier and leaves the record deleted.
    proof fn lemma_retired_key(t: Self, now: Timestamp)
        ensures
            t.retired_at(now).key() == t.key(),
            t.retired_at(now).retired();
}

/// The records after an update with `x`: the one with the same identifier is revised.
pub open spec fn rows_revised<T: Revisable>(rows: Seq<T>, x: T) -> Seq<T> {
    rows.map_values(|r: T| if r.key() == x.key() { T::revised(r, x) } else { r })
}

/// The records after soft-deleting identifier `id` at instant `now`.
pub open spec fn rows_retired<T: Retirable>(rows: Seq<T>, id: EntityId, now: Timestamp) -> Seq<T> {
    rows.map_values(|r: T| if r.key() == id { r.retired_at(now) } else { r })
}

/// The record with identifier `id` unless it is soft-deleted.
pub open spec fn lookup_live<T: Retirable>(rows: Seq<T>, id: EntityId) -> Option<T> {
    match lookup(rows, id) {
        Some(r) => if r.retired() { None } else { Some(r) },
        None => None,
    }
}

/// Records kept in insertion order, no two with the same identifier.
pub struct Table<T: Record> {
    rows: Vec<T>,
}

impl<T: Record> View for Table<T> {
    type V = Seq<T>;

    closed spec fn view(&self) -> Seq<T> {
        self.rows@
    }
}

impl<T: Record> Table<T> {
    /// Whether the identifiers of the records are unique.
    pub open spec fn wf(&self) -> bool {
        unique_keys(self@)
    }

    /// The records, in storage order.
    pub fn records(&self) -> (r: &Vec<T>)
        ensures
            r@ == self@,
    {
        &self.rows
    }

    /// An empty table.
    pub fn new() -> (r: Table<T>)
        ensures
            r@ == Seq::<T>::empty(),
            r.wf(),
    {
        Table { rows: Vec::new() }
    }

    /// Number of records.
    pub fn len(&self) -> (r: usize)
        ensures
            r == self@.len(),
    {
        self.rows.len()
    }

    /// The record at position `i`.
    pub fn get(&self, i: usize) -> (r: &T)
        requires
            i < self@.len(),
        ensures
            *r == self@[i as int],
    {
        &self.rows[i]
    }

    /// Position of the record with identifier `id`, if any.
    pub fn position_of(&self, id: EntityId) -> (r: Option<usize>)
        requires
            self.wf(),
        ensures
            r is Some <==> has_key(self@, id),
            r matches Some(i) ==> i < self@.len() && self@[i as int].key() == id
                && lookup(self@, id) == Some(self@[i as int]),
    {
        proof {
            lemma_lookup(self@, id);
        }
        let n = self.rows.len();
        let mut i: usize = 0;
        while i < n
            invariant
                self.wf(),
                n == self@.len(),
                i <= n,
                forall|j: int| 0 <= j < i ==> #[trigger] self@[j].key() != id,
            decreases n - i,
        {
            if self.rows[i].record_id() == id {
                proof {
                    lemma_lookup(self@, id);
                    assert(self@[i as int].key() == id);
                }
                return Some(i);
            }
            i += 1;
        }
        None
    }

    /// Adds a record at the end, unless one with the same identifier is present.
    pub fn insert(&mut self, x: T) -> (r: bool)
        requires
            old(self).wf(),
        ensures
            final(self).wf(),
            r == !has_key(old(self)@, x.key()),
            r ==> final(self)@ == old(self)@.push(x),
            !r ==> final(self)@ == old(self)@,
    {
        match self.position_of(x.record_id()) {
            Some(_) => false,
            None => {
                self.rows.push(x);
                assert forall|i: int, j: int|
                    0 <= i < self@.len() && 0 <= j < self@.len() && i != j
                    implies #[trigger] self@[i].key() != #[trigger] self@[j].key() by {
                    if i < old(self)@.len() && j < old(self)@.len() {
                        assert(self@[i] == old(self)@[i]);
                        assert(self@[j] == old(self)@[j]);
                    } else if i < old(self)@.len() {
                        assert(self@[i] == old(self)@[i]);
                    } else {
                        assert(self@[j] == old(self)@[j]);
                    }
                }
                true
            },
        }
    }

    /// Replaces the record at position `i` by one with the same identifier.
    pub fn replace(&mut self, i: usize, x: T)
        requires
            old(self).wf(),
            i < old(self)@.len(),
            x.key() == old(self)@[i as int].key(),
        ensures
            final(self).wf(),
            final(self)@ == old(self)@.update(i as int, x),
    {
        self.rows.set(i, x);
        assert forall|a: int, b: int|
            0 <= a < self@.len() && 0 <= b < self@.len() && a != b
            implies #[trigger] self@[a].key() != #[trigger] self@[b].key() by {
            assert(self@[a].key() == old(self)@[a].key());
            assert(self@[b].key() == old(self)@[b].key());
        }
    }
}

impl<T: Record> Table<T> {
    /// Copies of the records that meet `f`, in storage order.
    pub fn select<F: Filter<T>>(&self, f: &F) -> (r: Vec<T>)
        ensures
            r@ == self@.filter(accepted(*f)),
    {
        let n = self.rows.len();
        let mut out: Vec<T> = Vec::new();
        let mut i: usize = 0;
        while i < n
            invariant
                n == self@.len(),
                i <= n,
                out@ == self@.take(i as int).filter(accepted(*f)),
            decreases n - i,
        {
            proof {
                lemma_prefix_step(self@, i as int, |x: T| 0int, accepted(*f));
            }
            let t = &self.rows[i];
            if f.test(t) {
                out.push(t.copy_record());
            }
            i += 1;
        }
        proof {
            assert(self@.take(n as int) =~= self@);
        }
        out
    }

    /// Copies of the records that meet `f`, in the order `O` (storage order among records
    /// that neither comes before the other).
    pub fn select_ordered<F: Filter<T>, O: Order<T>>(&self, f: &F) -> (r: Vec<T>)
        ensures
            r@ == stable_sort(self@.filter(accepted(*f)), relation::<T, O>()),
    {
        let n = self.rows.len();
        let mut out: Vec<T> = Vec::new();
        let mut i: usize = 0;
        while i < n
            invariant
                n == self@.len(),
                i <= n,
                out@ == stable_sort(self@.take(i as int).filter(accepted(*f)), relation::<T, O>()),
            decreases n - i,
        {
            proof {
                lemma_prefix_step(self@, i as int, |x: T| 0int, accepted(*f));
            }
            let t = &self.rows[i];
            if f.test(t) {
                proof {
                    lemma_stable_sort_push(self@.take(i as int).filter(accepted(*f)), *t, relation::<T, O>());
                }
                insert_in_order::<T, O>(&mut out, t.copy_record());
            }
            i += 1;
        }
        proof {
            assert(self@.take(n as int) =~= self@);
        }
        out
    }

    /// Whether some record meets `f`.
    pub fn any_match<F: Filter<T>>(&self, f: &F) -> (r: bool)
        ensures
            r == exists|i: int| 0 <= i < self@.len() && f.accepts(#[trigger] self@[i]),
    {
        let n = self.rows.len();
        let mut i: usize = 0;
        while i < n
            invariant
                n == self@.len(),
                i <= n,
                forall|j: int| 0 <= j < i ==> !f.accepts(#[trigger] self@[j]),
            decreases n - i,
        {
            if f.test(&self.rows[i]) {
                assert(f.accepts(self@[i as int]));
                return true;
            }
            i += 1;
        }
        false
    }

    /// A copy of the first record that meets `f`, if any.
    pub fn first_match<F: Filter<T>>(&self, f: &F) -> (r: Option<T>)
        ensures
            self@.filter(accepted(*f)).len() == 0 ==> r is None,
            self@.filter(accepted(*f)).len() > 0 ==> r == Some(self@.filter(accepted(*f))[0]),
    {
        let n = self.rows.len();
        let mut i: usize = 0;
        while i < n
            invariant
                n == self@.len(),
                i <= n,
                self@.take(i as int).filter(accepted(*f)).len() == 0,
            decreases n - i,
        {
            proof {
                lemma_prefix_step(self@, i as int, |x: T| 0int, accepted(*f));
            }
            let t = &self.rows[i];
            if f.test(t) {
                proof {
                    lemma_filter_prefix(self@, i + 1, accepted(*f));
                }
                return Some(t.copy_record());
            }
            i += 1;
        }
        proof {
            assert(self@.take(n as int) =~= self@);
        }
        None
    }

    /// Soft-deletes the record with identifier `id` at instant `now`; nothing changes when
    /// no record has that identifier.
    pub fn retire_key(&mut self, id: EntityId, now: Timestamp)
        where T: Retirable
        requires
            old(self).wf(),
        ensures
            final(self).wf(),
            final(self)@ == rows_retired(old(self)@, id, now),
    {
        match self.position_of(id) {
            Some(i) => {
                let row = self.rows[i].retire(now);
                proof {
                    T::lemma_retired_key(old(self)@[i as int], now);
                }
                self.replace(i, row);
                proof {
                    assert forall|j: int| 0 <= j < old(self)@.len() && j != i
                        implies #[trigger] old(self)@[j].key() != id by {
                        assert(old(self)@[j].key() != old(self)@[i as int].key());
                    }
                    assert(self@ =~= rows_retired(old(self)@, id, now));
                }
            },
            None => {
                proof {
                    assert forall|j: int| 0 <= j < old(self)@.len() implies #[trigger] old(self)@[j].key() != id by {
                        if old(self)@[j].key() == id {
                            assert(has_key(old(self)@, id));
                        }
                    }
                    assert(self@ =~= rows_retired(old(self)@, id, now));
                }
            },
        }
    }

    /// Applies an update: the record with the identifier of `x` is revised with it;
    /// nothing changes when no record has that identifier.
    pub fn revise_key(&mut self, x: &T)
        where T: Revisable
        requires
            old(self).wf(),
        ensures
            final(self).wf(),
            final(self)@ == rows_revised(old(self)@, *x),
    {
        match self.position_of(x.record_id()) {
            Some(i) => {
                let row = self.rows[i].revise(x);
                proof {
                    T::lemma_revised_key(old(self)@[i as int], *x);
                }
                self.replace(i, row);
                proof {
                    assert forall|j: int| 0 <= j < old(self)@.len() && j != i
                        implies #[trigger] old(self)@[j].key() != x.key() by {
                        assert(old(self)@[j].key() != old(self)@[i as int].key());
                    }
                    assert(self@ =~= rows_revised(old(self)@, *x));
                }
            },
            None => {
                proof {
                    assert forall|j: int| 0 <= j < old(self)@.len() implies #[trigger] old(self)@[j].key() != x.key() by {
                        if old(self)@[j].key() == x.key() {
                            assert(has_key(old(self)@, x.key()));
                        }
                    }
                    assert(self@ =~= rows_revised(old(self)@, *x));
                }
            },
        }
    }

    /// A copy of the record with identifier `id`, if any.
    pub fn find(&self, id: EntityId) -> (r: Option<T>)
        requires
            self.wf(),
        ensures
            r == lookup(self@, id),
    {
        proof {
            lemma_lookup(self@, id);
        }
        match self.position_of(id) {
            Some(i) => Some(self.rows[i].copy_record()),
            None => None,
        }
    }

    /// A copy of the record with identifier `id`, unless there is none or it is soft-deleted.
    pub fn find_live(&self, id: EntityId) -> (r: Option<T>)
        where T: Retirable
        requires
            self.wf(),
        ensures
            r == lookup_live(self@, id),
    {
        match self.find(id) {
            Some(t) => if t.is_retired() { None } else { Some(t) },
            None => None,
        }
    }
}

/// When the filtered prefix of length `i` ends with a match and nothing before it matched,
/// the first match overall is the element at `i - 1`.
pub proof fn lemma_filter_prefix<T>(s: Seq<T>, i: int, p: spec_fn(T) -> bool)
    requires
        0 < i <= s.len(),
        s.take(i - 1).filter(p).len() == 0,
        p(s[i - 1]),
    ensures
        s.filter(p).len() > 0,
        s.filter(p)[0] == s[i - 1],
    decreases s.len() - i,
{
    reveal_with_fuel(Seq::filter, 1);
    if i == s.len() {
        assert(s.take(i - 1) =~= s.drop_last());
        assert(s.drop_last().filter(p).len() == 0);
    } else {
        assert(s.drop_last().take(i - 1) =~= s.take(i - 1));
        lemma_filter_prefix(s.drop_last(), i, p);
    }
}

/// Keeping some of the records keeps the identifiers unique.
pub proof fn lemma_filter_unique_keys<T: Record>(s: Seq<T>, p: spec_fn(T) -> bool)
    requires
        unique_keys(s),
    ensures
        unique_keys(s.filter(p)),
    decreases s.len(),
{
    reveal_with_fuel(Seq::filter, 1);
    if s.len() > 0 {
        let t = s.drop_last();
        assert(unique_keys(t)) by {
            assert forall|i: int, j: int| 0 <= i < t.len() && 0 <= j < t.len() && i != j
                implies #[trigger] t[i].key() != #[trigger] t[j].key() by {
                assert(t[i] == s[i] && t[j] == s[j]);
            }
        }
        lemma_filter_unique_keys(t, p);
        crate::queries::lemma_filter_members(t, p);
        if p(s.last()) {
            let f = t.filter(p);
            assert forall|k: int| 0 <= k < f.len() implies #[trigger] f[k].key() != s.last().key() by {
                assert(t.contains(f[k]));
                let m = choose|m: int| 0 <= m < t.len() && t[m] == f[k];
                assert(s[m] == t[m]);
                assert(s[m].key() != s[s.len() - 1].key());
            }
            assert(s.filter(p) == f.push(s.last()));
        }
    }
}

} // verus!
