//! Users of the application.
use vstd::prelude::*;
use crate::entities::common::BaseEntity;
use crate::ids::EntityId;

verus! {

/// A user of the personal finance application.
#[derive(Debug, Clone)]
pub struct User {
    pub base: BaseEntity,
    pub name: String,
    pub email: String,
}

impl User {
    /// A new user with a fresh identity.
    pub fn new(name: String, email: String) -> (r: User)
        ensures
            r.name == name,
            r.email == email,
            r.base.deleted_at is None,
            r.base.created_at == r.base.updated_at,
    {
        User { base: BaseEntity::new(), name, email }
    }

    /// The user's identifier.
    pub fn id(&self) -> (r: EntityId)
        ensures
            r == self.base.id,
    {
        self.base.id
    }

    /// A copy of the user.
    pub fn duplicate(&self) -> (r: User)
        ensures
            r == *self,
    {
        User { base: self.base, name: self.name.clone(), email: self.email.clone() }
    }
}

} // verus!
