//! Stored users.
use vstd::prelude::*;
use crate::entities::common::BaseEntity;
use crate::entities::user::User;
use crate::errors::{DomainError, StorageError, query_error_text};
use crate::ids::EntityId;
use crate::records::{
    Filter, Record, Retirable, Revisable, Table, accepted, has_key, lookup_live, rows_retired, rows_revised, unique_keys};
use crate::text::text_eq;
use crate::time::Timestamp;

verus! {

impl Record for User {
    open spec fn key(&self) -> EntityId {
        self.base.id
    }

    fn record_id(&self) -> (r: EntityId) {
        self.base.id
    }

    fn copy_record(&self) -> (r: User) {
        self.duplicate()
    }
}

impl Revisable for User {
    /// An update keeps the identifier and the creation time.
    open spec fn revised(stored: User, incoming: User) -> User {
        User { base: BaseEntity { id: stored.base.id, created_at: stored.base.created_at, ..incoming.base }, ..incoming }
    }

    fn revise(&self, incoming: &User) -> (r: User) {
        let mut r = incoming.duplicate();
        r.base.id = self.base.id;
        r.base.created_at = self.base.created_at;
        r
    }

    proof fn lemma_revised_key(stored: User, incoming: User) {
    }
}

impl Retirable for User {
    open spec fn retired(&self) -> bool {
        self.base.deleted_at is Some
    }

    /// Soft deletion marks the user deleted and updated at `now`.
    open spec fn retired_at(self, now: Timestamp) -> User {
        User { base: BaseEntity { deleted_at: Some(now), updated_at: now, ..self.base }, ..self }
    }

    fn is_retired(&self) -> (r: bool) {
        self.base.is_deleted()
    }

    fn retire(&self, now: Timestamp) -> (r: User) {
        let mut r = self.duplicate();
        r.base.deleted_at = Some(now);
        r.base.updated_at = now;
        r
    }

    proof fn lemma_retired_key(t: User, now: Timestamp) {
    }
}

/// The users with an email address, deleted or not, other than the one with identifier
/// `except` when it is set.
pub struct EmailHolders {
    pub email: String,
    pub except: Option<EntityId>,
}

impl Filter<User> for EmailHolders {
    open spec fn accepts(&self, u: User) -> bool {
        u.email@ == self.email@ && !(self.except matches Some(id) && u.key() == id)
    }

    fn test(&self, u: &User) -> (r: bool) {
        let excluded = match self.except {
            Some(id) => u.base.id == id,
            None => false,
        };
        text_eq(u.email.as_str(), self.email.as_str()) && !excluded
    }
}

/// The live users with an email address.
pub struct LiveWithEmail {
    pub email: String,
}

impl Filter<User> for LiveWithEmail {
    open spec fn accepts(&self, u: User) -> bool {
        u.email@ == self.email@ && !u.retired()
    }

    fn test(&self, u: &User) -> (r: bool) {
        text_eq(u.email.as_str(), self.email.as_str()) && !u.is_retired()
    }
}

/// Whether a user is live and has email address `email`.
pub open spec fn live_with_email(email: Seq<char>) -> spec_fn(User) -> bool {
    |u: User| u.email@ == email && !u.retired()
}

/// Whether no two users share an email address.
pub open spec fn unique_emails(rows: Seq<User>) -> bool {
    forall|i: int, j: int| 0 <= i < rows.len() && 0 <= j < rows.len() && i != j
        ==> #[trigger] rows[i].email@ != #[trigger] rows[j].email@
}

/// Whether some user other than the one with identifier `except` (if set) has email `email`.
pub open spec fn email_taken(rows: Seq<User>, email: Seq<char>, except: Option<EntityId>) -> bool {
    exists|i: int| 0 <= i < rows.len() && #[trigger] rows[i].email@ == email
        && !(except matches Some(id) && rows[i].key() == id)
}

/// Message of the error for a user whose identifier is already stored.
pub open spec fn duplicate_user_message() -> Seq<char> {
    query_error_text("UNIQUE constraint failed: users.id"@)
}

/// Message of the error for an email address another user already has.
pub open spec fn duplicate_email_message() -> Seq<char> {
    query_error_text("UNIQUE constraint failed: users.email"@)
}

/// Stored users, in insertion order; identifiers and email addresses unique.
pub struct InMemoryUserRepository {
    table: Table<User>,
}

impl View for InMemoryUserRepository {
    type V = Seq<User>;

    closed spec fn view(&self) -> Seq<User> {
        self.table@
    }
}

impl InMemoryUserRepository {
    /// Whether the stored users have unique identifiers and unique email addresses.
    pub open spec fn wf(&self) -> bool {
        self.table_wf() && unique_emails(self@)
    }

    /// Whether the stored users have unique identifiers.
    pub open spec fn table_wf(&self) -> bool {
        unique_keys(self@)
    }

    /// The stored records, in storage order (deleted ones included).
    pub fn records(&self) -> (r: &Vec<User>)
        ensures
            r@ == self@,
    {
        self.table.records()
    }

    /// An empty repository.
    pub fn new() -> (r: InMemoryUserRepository)
        ensures
            r@ == Seq::<User>::empty(),
            r.wf(),
    {
        InMemoryUserRepository { table: Table::new() }
    }

    /// Stores a new user; fails when a user with the same identifier, or else with the same
    /// email address (deleted or not), is stored.
    pub fn save(&mut self, user: &User) -> (r: Result<(), DomainError>)
        requires
            old(self).wf(),
        ensures
            final(self).wf(),
            r is Ok <==> !has_key(old(self)@, user.key()) && !email_taken(old(self)@, user.email@, None),
            r is Ok ==> final(self)@ == old(self)@.push(*user),
            r matches Err(e) ==> final(self)@ == old(self)@ && e is Storage && e.message() == if has_key(
                old(self)@,
                user.key(),
            ) {
                duplicate_user_message()
            } else {
                duplicate_email_message()
            },
    {
        if self.table.position_of(user.base.id).is_some() {
            return Err(StorageError::Query("UNIQUE constraint failed: users.id".to_string()).into_domain());
        }
        let holders = EmailHolders { email: user.email.clone(), except: None };
        if self.table.any_match(&holders) {
            return Err(StorageError::Query("UNIQUE constraint failed: users.email".to_string()).into_domain());
        }
        let inserted = self.table.insert(user.duplicate());
        proof {
            assert forall|i: int, j: int| 0 <= i < self@.len() && 0 <= j < self@.len() && i != j
                implies #[trigger] self@[i].email@ != #[trigger] self@[j].email@ by {
                if i < old(self)@.len() && j < old(self)@.len() {
                    assert(self@[i] == old(self)@[i] && self@[j] == old(self)@[j]);
                } else if i < old(self)@.len() {
                    assert(self@[i] == old(self)@[i]);
                    assert(!holders.accepts(old(self)@[i]));
                } else {
                    assert(self@[j] == old(self)@[j]);
                    assert(!holders.accepts(old(self)@[j]));
                }
            }
        }
        Ok(())
    }

    /// The user with identifier `id`, unless there is none or it is deleted.
    pub fn find_by_id(&self, id: EntityId) -> (r: Result<Option<User>, DomainError>)
        requires
            self.wf(),
        ensures
            r == Ok::<Option<User>, DomainError>(lookup_live(self@, id)),
    {
        Ok(self.table.find_live(id))
    }

    /// The live user with email address `email`, if any.
    pub fn find_by_email(&self, email: &str) -> (r: Result<Option<User>, DomainError>)
        ensures
            ({
                let found = self@.filter(live_with_email(email@));
                &&& r is Ok
                &&& found.len() == 0 ==> r == Ok::<Option<User>, DomainError>(None)
                &&& found.len() > 0 ==> r == Ok::<Option<User>, DomainError>(Some(found[0]))
            }),
    {
        let f = LiveWithEmail { email: email.to_string() };
        assert(accepted(f) =~= live_with_email(email@));
        Ok(self.table.first_match(&f))
    }

    /// Applies an update: the stored user with the same identifier takes the name, email
    /// address and times of `user` (not its creation time). Fails, changing nothing, when
    /// another user has that email address. Nothing changes when no user has that identifier.
    pub fn update(&mut self, user: &User) -> (r: Result<(), DomainError>)
        requires
            old(self).wf(),
        ensures
            final(self).wf(),
            r is Err <==> has_key(old(self)@, user.key()) && email_taken(old(self)@, user.email@, Some(user.key())),
            r is Ok ==> final(self)@ == rows_revised(old(self)@, *user),
            r matches Err(e) ==> final(self)@ == old(self)@ && e is Storage && e.message() == duplicate_email_message(),
    {
        if self.table.position_of(user.base.id).is_none() {
            self.table.revise_key(user);
            return Ok(());
        }
        let holders = EmailHolders { email: user.email.clone(), except: Some(user.base.id) };
        if self.table.any_match(&holders) {
            return Err(StorageError::Query("UNIQUE constraint failed: users.email".to_string()).into_domain());
        }
        self.table.revise_key(user);
        proof {
            assert forall|i: int| 0 <= i < old(self)@.len() && old(self)@[i].key() != user.key()
                implies #[trigger] old(self)@[i].email@ != user.email@ by {
                assert(!holders.accepts(old(self)@[i]));
            }
            assert forall|i: int, j: int| 0 <= i < self@.len() && 0 <= j < self@.len() && i != j
                implies #[trigger] self@[i].email@ != #[trigger] self@[j].email@ by {
                assert(old(self)@[i].key() != old(self)@[j].key());
            }
        }
        Ok(())
    }

    /// Soft-deletes the user with identifier `id` now: it is marked deleted and updated at
    /// the current time. Nothing changes when no user has that identifier.
    pub fn delete(&mut self, id: EntityId) -> (r: Result<(), DomainError>)
        requires
            old(self).wf(),
        ensures
            final(self).wf(),
            r is Ok,
            exists|now: Timestamp| final(self)@ == rows_retired(old(self)@, id, now),
    {
        let now = Timestamp::now();
        self.table.retire_key(id, now);
        proof {
            assert forall|i: int, j: int| 0 <= i < self@.len() && 0 <= j < self@.len() && i != j
                implies #[trigger] self@[i].email@ != #[trigger] self@[j].email@ by {
                assert(old(self)@[i].email@ != old(self)@[j].email@);
            }
        }
        assert(self@ == rows_retired(old(self)@, id, now));
        Ok(())
    }
}

} // verus!
