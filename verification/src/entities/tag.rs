//! Tags that label transactions.
use vstd::prelude::*;
use crate::entities::category::duplicate_text;
use crate::entities::common::BaseEntity;
use crate::ids::EntityId;

verus! {

/// A tag (label) that can be attached to transactions.
#[derive(Debug, Clone)]
pub struct Tag {
    pub base: BaseEntity,
    pub user_id: EntityId,
    pub name: String,
    pub color: Option<String>,
}

impl Tag {
    /// A new tag.
    pub fn new(user_id: EntityId, name: String, color: Option<String>) -> (r: Tag)
        ensures
            r.user_id == user_id,
            r.name == name,
            r.color == color,
            r.base.deleted_at is None,
            r.base.created_at == r.base.updated_at,
    {
        Tag { base: BaseEntity::new(), user_id, name, color }
    }

    /// The tag's identifier.
    pub fn id(&self) -> (r: EntityId)
        ensures
            r == self.base.id,
    {
        self.base.id
    }

    /// A copy of the tag.
    pub fn duplicate(&self) -> (r: Tag)
        ensures
            r == *self,
    {
        Tag {
            base: self.base,
            user_id: self.user_id,
            name: self.name.clone(),
            color: duplicate_text(&self.color),
        }
    }
}

/// Association between a transaction and a tag.
#[derive(Debug, Clone, Copy, PartialEq, Eq, Structural)]
pub struct TransactionTag {
    pub transaction_id: EntityId,
    pub tag_id: EntityId,
}

} // verus!
