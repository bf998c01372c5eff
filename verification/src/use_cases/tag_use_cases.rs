//! Managing tags and attaching them to transactions.
use vstd::prelude::*;
use crate::entities::common::BaseEntity;
use crate::entities::pagination::{PageRequest, PaginatedResult};
use crate::entities::tag::{Tag, TransactionTag};
use crate::errors::{DomainError, not_found, not_found_text, validation};
use crate::ids::EntityId;
use crate::queries::{page_of, relation, stable_sort};
use crate::records::{accepted, lookup_live, rows_retired, rows_revised};
use crate::repositories::tag_repository::{
    ByName, InMemoryTagRepository, TagsOf, duplicate_tag_message, links_after_add, tags_of_transaction, transactions_of_tag,
};
use crate::text::{blank, chars_of, is_blank};
use crate::time::Timestamp;

verus! {

/// Message of the error for a blank tag name.
pub open spec fn tag_name_message() -> Seq<char> {
    "Tag name cannot be empty"@
}

/// Message of the error for a malformed colour.
pub open spec fn tag_color_message() -> Seq<char> {
    "Color must be a hex string like #FF5733 or #F53"@
}

/// Whether `c` is a hexadecimal digit (either letter case).
pub open spec fn hex_digit(c: char) -> bool {
    ('0' <= c <= '9') || ('a' <= c <= 'f') || ('A' <= c <= 'F')
}

/// Whether `c` is an acceptable tag colour: `#` followed by three or six hexadecimal
/// digits, such as `#F53` or `#ff5733`.
pub open spec fn valid_color(c: Seq<char>) -> bool {
    &&& (c.len() == 4 || c.len() == 7)
    &&& c[0] == '#'
    &&& forall|i: int| 1 <= i < c.len() ==> hex_digit(#[trigger] c[i])
}

/// Whether `c` is an acceptable tag colour.
pub fn is_valid_color(c: &str) -> (r: bool)
    ensures
        r == valid_color(c@),
{
    let chars = chars_of(c);
    let n = chars.len();
    if (n != 4 && n != 7) || chars[0] != '#' {
        return false;
    }
    let mut i: usize = 1;
    while i < n
        invariant
            chars@ == c@,
            n == c@.len(),
            1 <= i <= n,
            forall|j: int| 1 <= j < i ==> hex_digit(#[trigger] c@[j]),
        decreases n - i,
    {
        let d = chars[i];
        if !(('0' <= d && d <= '9') || ('a' <= d && d <= 'f') || ('A' <= d && d <= 'F')) {
            return false;
        }
        i += 1;
    }
    true
}

/// Whether an optional colour is acceptable (no colour is).
pub open spec fn valid_color_choice(color: Option<String>) -> bool {
    color matches Some(c) ==> valid_color(c@)
}

/// Operations on tags.
pub struct TagUseCases<'a> {
    pub repo: &'a mut InMemoryTagRepository,
}

impl<'a> TagUseCases<'a> {
    /// Operations over the tags of `repo`.
    pub fn new(repo: &'a mut InMemoryTagRepository) -> (r: TagUseCases<'a>)
        ensures
            *r.repo == *old(repo),
            *final(r.repo) == *final(repo),
    {
        TagUseCases { repo }
    }

    /// Creates and stores a tag; the name must not be blank and the colour, when given,
    /// must start with `#` and be 7 or 4 bytes long.
    pub fn create_tag(&mut self, user_id: EntityId, name: String, color: Option<String>) -> (r: Result<Tag, DomainError>)
        requires
            old(self).repo.wf(),
        ensures
            final(self).repo.wf(),
            *final(final(self).repo) == *final(old(self).repo),
            final(self).repo.links() == old(self).repo.links(),
            blank(name@) ==> (r matches Err(e) && e is Validation && e.message() == tag_name_message()),
            !blank(name@) && !valid_color_choice(color) ==> (r matches Err(e) && e is Validation
                && e.message() == tag_color_message()),
            !blank(name@) && valid_color_choice(color) ==> (r is Ok || (r matches Err(e) && e is Storage
                && e.message() == duplicate_tag_message())),
            !blank(name@) && valid_color_choice(color) && old(self).repo@.len() == 0 ==> r is Ok,
            r matches Ok(t) ==> t.user_id == user_id && t.name == name && t.color == color && t.base.deleted_at is None
                && final(self).repo@ == old(self).repo@.push(t),
            r is Err ==> final(self).repo@ == old(self).repo@,
    {
        if is_blank(name.as_str()) {
            return Err(validation("Tag name cannot be empty"));
        }
        if let Some(c) = &color {
            if !is_valid_color(c.as_str()) {
                return Err(validation("Color must be a hex string like #FF5733 or #F53"));
            }
        }
        let tag = Tag::new(user_id, name, color);
        self.repo.save(&tag)?;
        Ok(tag)
    }

    /// The live tag with identifier `id`; fails when there is none.
    pub fn get_tag(&self, id: EntityId) -> (r: Result<Tag, DomainError>)
        requires
            self.repo.wf(),
        ensures
            r is Ok <==> lookup_live(old(self.repo)@, id) is Some,
            r matches Ok(t) ==> lookup_live(old(self.repo)@, id) == Some(t),
            r matches Err(e) ==> e is NotFound && e.message() == not_found_text("Tag"@, id),
    {
        match self.repo.find_by_id(id)? {
            Some(t) => Ok(t),
            None => Err(not_found("Tag", id)),
        }
    }

    /// The live tags of a user, by name.
    pub fn list_tags(&self, user_id: EntityId) -> (r: Result<Vec<Tag>, DomainError>)
        ensures
            r matches Ok(v) && v@ == stable_sort(old(self.repo)@.filter(accepted(TagsOf { user_id })), relation::<Tag, ByName>()),
    {
        self.repo.find_by_user_id(user_id)
    }

    /// Renames the live tag with identifier `id` (when a name is given, then not blank)
    /// and/or changes its colour (when given, then acceptable); it is then updated now and
    /// stored. Returns the tag as stored.
    pub fn update_tag(&mut self, id: EntityId, name: Option<String>, color: Option<Option<String>>)
        -> (r: Result<Tag, DomainError>)
        requires
            old(self).repo.wf(),
        ensures
            final(self).repo.wf(),
            *final(final(self).repo) == *final(old(self).repo),
            final(self).repo.links() == old(self).repo.links(),
            lookup_live(old(self).repo@, id) is None ==> (r matches Err(e) && e is NotFound
                && e.message() == not_found_text("Tag"@, id)),
            lookup_live(old(self).repo@, id) is Some && (name matches Some(n) && blank(n@)) ==> (r matches Err(e)
                && e is Validation && e.message() == tag_name_message()),
            lookup_live(old(self).repo@, id) is Some && !(name matches Some(n) && blank(n@))
                && (color matches Some(c) && !valid_color_choice(c)) ==> (r matches Err(e) && e is Validation
                && e.message() == tag_color_message()),
            lookup_live(old(self).repo@, id) is Some && !(name matches Some(n) && blank(n@))
                && !(color matches Some(c) && !valid_color_choice(c)) ==> r is Ok,
            r is Err ==> final(self).repo@ == old(self).repo@,
            r matches Ok(t) ==> ({
                let stored = lookup_live(old(self).repo@, id)->Some_0;
                &&& t == (Tag {
                    name: match name { Some(n) => n, None => stored.name },
                    color: match color { Some(c) => c, None => stored.color },
                    base: BaseEntity { updated_at: t.base.updated_at, ..stored.base },
                    ..stored
                })
                &&& final(self).repo@ == rows_revised(old(self).repo@, t)
            }),
    {
        let mut tag = self.get_tag(id)?;
        if let Some(n) = name {
            if is_blank(n.as_str()) {
                return Err(validation("Tag name cannot be empty"));
            }
            tag.name = n;
        }
        if let Some(new_color) = color {
            if let Some(c) = &new_color {
                if !is_valid_color(c.as_str()) {
                    return Err(validation("Color must be a hex string like #FF5733 or #F53"));
                }
            }
            tag.color = new_color;
        }
        tag.base.touch();
        self.repo.update(&tag)?;
        Ok(tag)
    }

    /// Removes every link to the tag with identifier `id`, then soft-deletes it now.
    pub fn delete_tag(&mut self, id: EntityId) -> (r: Result<(), DomainError>)
        requires
            old(self).repo.wf(),
        ensures
            final(self).repo.wf(),
            *final(final(self).repo) == *final(old(self).repo),
            r is Ok,
            final(self).repo.links() == old(self).repo.links().filter(|l: TransactionTag| l.tag_id != id),
            exists|now: Timestamp| final(self).repo@ == rows_retired(old(self).repo@, id, now),
    {
        self.repo.delete(id)
    }

    /// Links a transaction to the live tag with identifier `tag_id` (nothing changes when
    /// they are already linked); fails when there is no such tag.
    pub fn add_tag_to_transaction(&mut self, transaction_id: EntityId, tag_id: EntityId) -> (r: Result<(), DomainError>)
        requires
            old(self).repo.wf(),
        ensures
            final(self).repo.wf(),
            *final(final(self).repo) == *final(old(self).repo),
            final(self).repo@ == old(self).repo@,
            r is Ok <==> lookup_live(old(self).repo@, tag_id) is Some,
            r matches Err(e) ==> e is NotFound && e.message() == not_found_text("Tag"@, tag_id)
                && final(self).repo.links() == old(self).repo.links(),
            r is Ok ==> final(self).repo.links() == links_after_add(old(self).repo.links(), transaction_id, tag_id),
    {
        self.get_tag(tag_id)?;
        self.repo.add_tag_to_transaction(transaction_id, tag_id)
    }

    /// Removes the link between a transaction and a tag, if any.
    pub fn remove_tag_from_transaction(&mut self, transaction_id: EntityId, tag_id: EntityId) -> (r: Result<(), DomainError>)
        requires
            old(self).repo.wf(),
        ensures
            final(self).repo.wf(),
            *final(final(self).repo) == *final(old(self).repo),
            r is Ok,
            final(self).repo@ == old(self).repo@,
            final(self).repo.links() == old(self).repo.links().filter(
                |l: TransactionTag| l != (TransactionTag { transaction_id, tag_id }),
            ),
    {
        self.repo.remove_tag_from_transaction(transaction_id, tag_id)
    }

    /// The live tags linked to a transaction, by name.
    pub fn get_transaction_tags(&self, transaction_id: EntityId) -> (r: Result<Vec<Tag>, DomainError>)
        ensures
            r matches Ok(v) && v@ == tags_of_transaction(old(self.repo)@, old(self.repo).links(), transaction_id),
    {
        self.repo.find_tags_for_transaction(transaction_id)
    }

    /// The transactions linked to a tag, in the order the links were made.
    pub fn get_transactions_by_tag(&self, tag_id: EntityId) -> (r: Result<Vec<EntityId>, DomainError>)
        ensures
            r matches Ok(v) && v@ == transactions_of_tag(old(self.repo).links(), tag_id),
    {
        self.repo.find_transaction_ids_by_tag(tag_id)
    }

    /// One page of the transactions linked to a tag, in the order the links were made.
    pub fn get_transactions_by_tag_paginated(&self, tag_id: EntityId, page: &PageRequest)
        -> (r: Result<PaginatedResult<EntityId>, DomainError>)
        ensures
            r matches Ok(p) && {
                let all = transactions_of_tag(old(self.repo).links(), tag_id);
                &&& p.items@ == page_of(all, page.offset as int, page.limit as int)
                &&& p.total_count == all.len()
                &&& p.has_more == (page.offset + p.items@.len() < all.len())
            },
    {
        self.repo.find_transaction_ids_by_tag_paginated(tag_id, page)
    }
}

} // verus!
