//! Stored tags and the links between tags and transactions.
use vstd::prelude::*;
use crate::entities::common::BaseEntity;
use crate::entities::pagination::{PageRequest, PaginatedResult};
use crate::entities::tag::{Tag, TransactionTag};
use crate::errors::{DomainError, StorageError, query_error_text};
use crate::ids::EntityId;
use crate::queries::{Order, lemma_prefix_step, page_of, relation, stable_sort};
use crate::records::{
    Filter, Record, Retirable, Revisable, Table, accepted, has_key, lookup_live, rows_retired, rows_revised, unique_keys};
use crate::text::{is_text_before, text_before};
use crate::time::Timestamp;

verus! {

impl Record for Tag {
    open spec fn key(&self) -> EntityId {
        self.base.id
    }

    fn record_id(&self) -> (r: EntityId) {
        self.base.id
    }

    fn copy_record(&self) -> (r: Tag) {
        self.duplicate()
    }
}

impl Revisable for Tag {
    /// An update keeps the identifier, the owner and the creation time.
    open spec fn revised(stored: Tag, incoming: Tag) -> Tag {
        Tag {
            base: BaseEntity { id: stored.base.id, created_at: stored.base.created_at, ..incoming.base },
            user_id: stored.user_id,
            ..incoming
        }
    }

    fn revise(&self, incoming: &Tag) -> (r: Tag) {
        let mut r = incoming.duplicate();
        r.base.id = self.base.id;
        r.base.created_at = self.base.created_at;
        r.user_id = self.user_id;
        r
    }

    proof fn lemma_revised_key(stored: Tag, incoming: Tag) {
    }
}

impl Retirable for Tag {
    open spec fn retired(&self) -> bool {
        self.base.deleted_at is Some
    }

    /// Soft deletion marks the tag deleted and updated at `now`.
    open spec fn retired_at(self, now: Timestamp) -> Tag {
        Tag { base: BaseEntity { deleted_at: Some(now), updated_at: now, ..self.base }, ..self }
    }

    fn is_retired(&self) -> (r: bool) {
        self.base.is_deleted()
    }

    fn retire(&self, now: Timestamp) -> (r: Tag) {
        let mut r = self.duplicate();
        r.base.deleted_at = Some(now);
        r.base.updated_at = now;
        r
    }

    proof fn lemma_retired_key(t: Tag, now: Timestamp) {
    }
}

/// The live tags of one user.
pub struct TagsOf {
    pub user_id: EntityId,
}

impl Filter<Tag> for TagsOf {
    open spec fn accepts(&self, t: Tag) -> bool {
        t.user_id == self.user_id && !t.retired()
    }

    fn test(&self, t: &Tag) -> (r: bool) {
        t.user_id == self.user_id && !t.is_retired()
    }
}

/// Tags listed by name in code point order.
pub struct ByName;

impl Order<Tag> for ByName {
    open spec fn before(a: Tag, b: Tag) -> bool {
        text_before(a.name@, b.name@)
    }

    fn precedes(a: &Tag, b: &Tag) -> (r: bool) {
        is_text_before(a.name.as_str(), b.name.as_str())
    }
}

/// Whether `links` holds the link between a transaction and a tag.
pub open spec fn linked(links: Seq<TransactionTag>, transaction_id: EntityId, tag_id: EntityId) -> bool {
    links.contains(TransactionTag { transaction_id, tag_id })
}

/// The links after linking a transaction to a tag: unchanged when they are already linked,
/// otherwise with the new link last.
pub open spec fn links_after_add(links: Seq<TransactionTag>, transaction_id: EntityId, tag_id: EntityId) -> Seq<TransactionTag> {
    if linked(links, transaction_id, tag_id) {
        links
    } else {
        links.push(TransactionTag { transaction_id, tag_id })
    }
}

/// Whether no link occurs twice.
pub open spec fn distinct_links(links: Seq<TransactionTag>) -> bool {
    forall|i: int, j: int| 0 <= i < links.len() && 0 <= j < links.len() && i != j ==> #[trigger] links[i] != #[trigger] links[j]
}

/// The live tags linked to a transaction, by name.
pub open spec fn tags_of_transaction(tags: Seq<Tag>, links: Seq<TransactionTag>, transaction_id: EntityId) -> Seq<Tag> {
    stable_sort(
        tags.filter(|t: Tag| !t.retired() && linked(links, transaction_id, t.key())),
        relation::<Tag, ByName>(),
    )
}

/// The transactions linked to a tag, in the order the links were made.
pub open spec fn transactions_of_tag(links: Seq<TransactionTag>, tag_id: EntityId) -> Seq<EntityId> {
    links.filter(|l: TransactionTag| l.tag_id == tag_id).map_values(|l: TransactionTag| l.transaction_id)
}

/// Message of the error for a tag whose identifier is already stored.
pub open spec fn duplicate_tag_message() -> Seq<char> {
    query_error_text("UNIQUE constraint failed: tags.id"@)
}

/// Stored tags (in insertion order, identifiers unique) and links between transactions
/// and tags (in the order they were made, none twice).
pub struct InMemoryTagRepository {
    table: Table<Tag>,
    links: Vec<TransactionTag>,
}

impl View for InMemoryTagRepository {
    type V = Seq<Tag>;

    closed spec fn view(&self) -> Seq<Tag> {
        self.table@
    }
}

impl InMemoryTagRepository {
    /// The links between transactions and tags.
    pub closed spec fn links(&self) -> Seq<TransactionTag> {
        self.links@
    }

    /// Whether the stored tags have unique identifiers and no link occurs twice.
    pub open spec fn wf(&self) -> bool {
        self.table_wf() && distinct_links(self.links())
    }

    /// Whether the stored tags have unique identifiers.
    pub open spec fn table_wf(&self) -> bool {
        unique_keys(self@)
    }

    /// The stored records, in storage order (deleted ones included).
    pub fn records(&self) -> (r: &Vec<Tag>)
        ensures
            r@ == self@,
    {
        self.table.records()
    }

    /// The stored links between transactions and tags, in storage order.
    pub fn link_records(&self) -> (r: &Vec<TransactionTag>)
        ensures
            r@ == self.links(),
    {
        &self.links
    }

    /// An empty repository.
    pub fn new() -> (r: InMemoryTagRepository)
        ensures
            r@ == Seq::<Tag>::empty(),
            r.links() == Seq::<TransactionTag>::empty(),
            r.wf(),
    {
        InMemoryTagRepository { table: Table::new(), links: Vec::new() }
    }

    /// Stores a new tag; fails when one with the same identifier is stored.
    pub fn save(&mut self, tag: &Tag) -> (r: Result<(), DomainError>)
        requires
            old(self).wf(),
        ensures
            final(self).wf(),
            final(self).links() == old(self).links(),
            r is Ok <==> !has_key(old(self)@, tag.key()),
            r is Ok ==> final(self)@ == old(self)@.push(*tag),
            r matches Err(e) ==> final(self)@ == old(self)@ && e is Storage
                && e.message() == duplicate_tag_message(),
    {
        if self.table.insert(tag.duplicate()) {
            Ok(())
        } else {
            Err(StorageError::Query("UNIQUE constraint failed: tags.id".to_string()).into_domain())
        }
    }

    /// The tag with identifier `id`, unless there is none or it is deleted.
    pub fn find_by_id(&self, id: EntityId) -> (r: Result<Option<Tag>, DomainError>)
        requires
            self.wf(),
        ensures
            r == Ok::<Option<Tag>, DomainError>(lookup_live(self@, id)),
    {
        Ok(self.table.find_live(id))
    }

    /// The live tags of a user, by name.
    pub fn find_by_user_id(&self, user_id: EntityId) -> (r: Result<Vec<Tag>, DomainError>)
        ensures
            r matches Ok(v) && v@ == stable_sort(self@.filter(accepted(TagsOf { user_id })), relation::<Tag, ByName>()),
    {
        Ok(self.table.select_ordered::<TagsOf, ByName>(&TagsOf { user_id }))
    }

    /// Applies an update: the stored tag with the same identifier takes the name, colour and
    /// times of `tag` (not its owner or creation time). Nothing changes when no tag has that
    /// identifier.
    pub fn update(&mut self, tag: &Tag) -> (r: Result<(), DomainError>)
        requires
            old(self).wf(),
        ensures
            final(self).wf(),
            final(self).links() == old(self).links(),
            r is Ok,
            final(self)@ == rows_revised(old(self)@, *tag),
    {
        self.table.revise_key(tag);
        Ok(())
    }

    /// Removes every link to the tag with identifier `id`, then soft-deletes the tag now:
    /// it is marked deleted and updated at the current time.
    pub fn delete(&mut self, id: EntityId) -> (r: Result<(), DomainError>)
        requires
            old(self).wf(),
        ensures
            final(self).wf(),
            r is Ok,
            final(self).links() == old(self).links().filter(|l: TransactionTag| l.tag_id != id),
            exists|now: Timestamp| final(self)@ == rows_retired(old(self)@, id, now),
    {
        let n = self.links.len();
        let mut kept: Vec<TransactionTag> = Vec::new();
        let mut i: usize = 0;
        while i < n
            invariant
                n == self.links@.len(),
                i <= n,
                kept@ == self.links@.take(i as int).filter(|l: TransactionTag| l.tag_id != id),
            decreases n - i,
        {
            proof {
                lemma_prefix_step(self.links@, i as int, |x: TransactionTag| 0int, |l: TransactionTag| l.tag_id != id);
            }
            let l = self.links[i];
            if l.tag_id != id {
                kept.push(l);
            }
            i += 1;
        }
        proof {
            assert(self.links@.take(n as int) =~= self.links@);
            lemma_filter_distinct(self.links@, |l: TransactionTag| l.tag_id != id);
        }
        self.links = kept;
        let now = Timestamp::now();
        self.table.retire_key(id, now);
        assert(self@ == rows_retired(old(self)@, id, now));
        Ok(())
    }

    /// Links a transaction to a tag; nothing changes when they are already linked.
    pub fn add_tag_to_transaction(&mut self, transaction_id: EntityId, tag_id: EntityId) -> (r: Result<(), DomainError>)
        requires
            old(self).wf(),
        ensures
            final(self).wf(),
            r is Ok,
            final(self)@ == old(self)@,
            final(self).links() == links_after_add(old(self).links(), transaction_id, tag_id),
    {
        let link = TransactionTag { transaction_id, tag_id };
        let n = self.links.len();
        let mut i: usize = 0;
        while i < n
            invariant
                link == (TransactionTag { transaction_id, tag_id }),
                self.links@ == old(self).links@,
                self.table@ == old(self).table@,
                self.wf(),
                n == self.links@.len(),
                i <= n,
                forall|j: int| 0 <= j < i ==> #[trigger] self.links@[j] != link,
            decreases n - i,
        {
            if self.links[i] == link {
                assert(self.links@.contains(link));
                return Ok(());
            }
            i += 1;
        }
        assert(!self.links@.contains(link));
        self.links.push(link);
        proof {
            assert forall|a: int, b: int| 0 <= a < self.links@.len() && 0 <= b < self.links@.len() && a != b
                implies #[trigger] self.links@[a] != #[trigger] self.links@[b] by {
                if a < n && b < n {
                    assert(self.links@[a] == old(self).links@[a] && self.links@[b] == old(self).links@[b]);
                }
            }
        }
        Ok(())
    }

    /// Removes the link between a transaction and a tag, if any.
    pub fn remove_tag_from_transaction(&mut self, transaction_id: EntityId, tag_id: EntityId) -> (r: Result<(), DomainError>)
        requires
            old(self).wf(),
        ensures
            final(self).wf(),
            r is Ok,
            final(self)@ == old(self)@,
            final(self).links() == old(self).links().filter(
                |l: TransactionTag| l != (TransactionTag { transaction_id, tag_id }),
            ),
    {
        let link = TransactionTag { transaction_id, tag_id };
        let n = self.links.len();
        let mut kept: Vec<TransactionTag> = Vec::new();
        let mut i: usize = 0;
        while i < n
            invariant
                n == self.links@.len(),
                i <= n,
                kept@ == self.links@.take(i as int).filter(|l: TransactionTag| l != link),
            decreases n - i,
        {
            proof {
                lemma_prefix_step(self.links@, i as int, |x: TransactionTag| 0int, |l: TransactionTag| l != link);
            }
            let l = self.links[i];
            if l != link {
                kept.push(l);
            }
            i += 1;
        }
        proof {
            assert(self.links@.take(n as int) =~= self.links@);
            lemma_filter_distinct(self.links@, |l: TransactionTag| l != link);
        }
        self.links = kept;
        Ok(())
    }

    /// The live tags linked to a transaction, by name.
    pub fn find_tags_for_transaction(&self, transaction_id: EntityId) -> (r: Result<Vec<Tag>, DomainError>)
        ensures
            r matches Ok(v) && v@ == tags_of_transaction(self@, self.links(), transaction_id),
    {
        let f = LinkedTags { transaction_id, links: &self.links };
        let r = self.table.select_ordered::<LinkedTags, ByName>(&f);
        assert(accepted(f) =~= (|t: Tag| !t.retired() && linked(self.links(), transaction_id, t.key())));
        Ok(r)
    }

    /// The transactions linked to a tag, in the order the links were made.
    pub fn find_transaction_ids_by_tag(&self, tag_id: EntityId) -> (r: Result<Vec<EntityId>, DomainError>)
        ensures
            r matches Ok(v) && v@ == transactions_of_tag(self.links(), tag_id),
    {
        Ok(self.linked_transactions(tag_id))
    }

    /// One page of the transactions linked to a tag, in the order the links were made.
    pub fn find_transaction_ids_by_tag_paginated(&self, tag_id: EntityId, page: &PageRequest)
        -> (r: Result<PaginatedResult<EntityId>, DomainError>)
        ensures
            r matches Ok(p) && {
                let all = transactions_of_tag(self.links(), tag_id);
                &&& p.items@ == page_of(all, page.offset as int, page.limit as int)
                &&& p.total_count == all.len()
                &&& p.has_more == (page.offset + p.items@.len() < all.len())
            },
    {
        let all = self.linked_transactions(tag_id);
        let n = all.len();
        let start = if page.offset < n { page.offset } else { n };
        let end = if page.limit < n - start { start + page.limit } else { n };
        let mut items: Vec<EntityId> = Vec::new();
        let mut i = start;
        while i < end
            invariant
                n == all@.len(),
                start <= i <= end <= n,
                items@ == all@.subrange(start as int, i as int),
            decreases end - i,
        {
            items.push(all[i]);
            assert(all@.subrange(start as int, i + 1) =~= all@.subrange(start as int, i as int).push(all@[i as int]));
            i += 1;
        }
        Ok(PaginatedResult::from_vec(items, n, page))
    }

    /// The transactions linked to a tag, in the order the links were made.
    fn linked_transactions(&self, tag_id: EntityId) -> (r: Vec<EntityId>)
        ensures
            r@ == transactions_of_tag(self.links(), tag_id),
    {
        let n = self.links.len();
        let mut out: Vec<EntityId> = Vec::new();
        let mut i: usize = 0;
        while i < n
            invariant
                n == self.links@.len(),
                i <= n,
                out@ == transactions_of_tag(self.links@.take(i as int), tag_id),
            decreases n - i,
        {
            proof {
                lemma_prefix_step(self.links@, i as int, |x: TransactionTag| 0int, |l: TransactionTag| l.tag_id == tag_id);
            }
            let l = self.links[i];
            if l.tag_id == tag_id {
                out.push(l.transaction_id);
            }
            proof {
                let p = |l: TransactionTag| l.tag_id == tag_id;
                let f = |l: TransactionTag| l.transaction_id;
                assert(transactions_of_tag(self.links@.take(i + 1), tag_id)
                    =~= self.links@.take(i + 1).filter(p).map_values(f));
                if p(self.links@[i as int]) {
                    assert(self.links@.take(i + 1).filter(p).map_values(f)
                        =~= self.links@.take(i as int).filter(p).map_values(f).push(l.transaction_id));
                }
            }
            i += 1;
        }
        proof {
            assert(self.links@.take(n as int) =~= self.links@);
        }
        out
    }
}

/// The live tags linked to a transaction.
pub struct LinkedTags<'a> {
    pub transaction_id: EntityId,
    pub links: &'a Vec<TransactionTag>,
}

impl<'a> Filter<Tag> for LinkedTags<'a> {
    open spec fn accepts(&self, t: Tag) -> bool {
        !t.retired() && linked(self.links@, self.transaction_id, t.key())
    }

    fn test(&self, t: &Tag) -> (r: bool) {
        if t.is_retired() {
            return false;
        }
        let link = TransactionTag { transaction_id: self.transaction_id, tag_id: t.base.id };
        let n = self.links.len();
        let mut i: usize = 0;
        while i < n
            invariant
                link == (TransactionTag { transaction_id: self.transaction_id, tag_id: t.key() }),
                !t.retired(),
                n == self.links@.len(),
                i <= n,
                forall|j: int| 0 <= j < i ==> #[trigger] self.links@[j] != link,
            decreases n - i,
        {
            if self.links[i] == link {
                assert(self.links@.contains(link));
                return true;
            }
            i += 1;
        }
        false
    }
}

/// Keeping some elements of a sequence without repeats gives a sequence without repeats.
pub proof fn lemma_filter_distinct(s: Seq<TransactionTag>, p: spec_fn(TransactionTag) -> bool)
    requires
        distinct_links(s),
    ensures
        distinct_links(s.filter(p)),
    decreases s.len(),
{
    reveal_with_fuel(Seq::filter, 1);
    if s.len() > 0 {
        let t = s.drop_last();
        assert(distinct_links(t)) by {
            assert forall|i: int, j: int| 0 <= i < t.len() && 0 <= j < t.len() && i != j implies #[trigger] t[i] != #[trigger] t[j] by {
                assert(t[i] == s[i] && t[j] == s[j]);
            }
        }
        lemma_filter_distinct(t, p);
        let f = t.filter(p);
        if p(s.last()) {
            assert forall|k: int| 0 <= k < f.len() implies #[trigger] f[k] != s.last() by {
                if f[k] == s.last() {
                    assert(t.filter(p).contains(s.last()));
                    lemma_kept_contains(t, p, s.last());
                }
            }
            assert(s.filter(p) == f.push(s.last()));
        }
    }
}

/// An element of the kept part of a sequence is an element of the sequence.
proof fn lemma_kept_contains(t: Seq<TransactionTag>, p: spec_fn(TransactionTag) -> bool, x: TransactionTag)
    requires
        t.filter(p).contains(x),
    ensures
        t.contains(x),
    decreases t.len(),
{
    reveal_with_fuel(Seq::filter, 1);
    if t.len() > 0 {
        if p(t.last()) && x == t.last() {
            assert(t[t.len() - 1] == x);
        } else {
            let u = t.drop_last().filter(p);
            if p(t.last()) {
                let k = choose|k: int| 0 <= k < t.filter(p).len() && t.filter(p)[k] == x;
                assert(u.push(t.last())[k] == x);
                if k < u.len() {
                    assert(u[k] == x);
                } else {
                    assert(x == t.last());
                }
            }
            lemma_kept_contains(t.drop_last(), p, x);
            let k = choose|k: int| 0 <= k < t.drop_last().len() && t.drop_last()[k] == x;
            assert(t[k] == x);
        }
    }
}

} // verus!
