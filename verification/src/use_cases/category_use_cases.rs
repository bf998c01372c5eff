//! Managing categories, and the default categories a new user starts with.
use vstd::prelude::*;
use crate::entities::category::Category;
use crate::entities::common::{BaseEntity, SyncStatus};
use crate::errors::{DomainError, not_found, not_found_text, validation};
use crate::ids::EntityId;
use crate::records::{accepted, lookup_live, rows_revised};
use crate::repositories::category_repository::{CategoriesOf, InMemoryCategoryRepository, duplicate_category_message};
use crate::text::{blank, is_blank};
use crate::time::Timestamp;

verus! {

/// Number of default categories.
pub const DEFAULT_CATEGORY_COUNT: usize = 18;

/// Name and icon of the `i`-th default category.
pub open spec fn default_category_spec(i: int) -> (Seq<char>, Seq<char>) {
    if i == 0 {
        ("Salary"@, "💼"@)
    } else if i == 1 {
        ("Food & Dining"@, "🍔"@)
    } else if i == 2 {
        ("Groceries"@, "🛒"@)
    } else if i == 3 {
        ("Transportation"@, "🚗"@)
    } else if i == 4 {
        ("Housing & Rent"@, "🏠"@)
    } else if i == 5 {
        ("Utilities"@, "⚡"@)
    } else if i == 6 {
        ("Entertainment"@, "🎬"@)
    } else if i == 7 {
        ("Shopping"@, "👕"@)
    } else if i == 8 {
        ("Health"@, "💊"@)
    } else if i == 9 {
        ("Education"@, "📚"@)
    } else if i == 10 {
        ("Travel"@, "✈️"@)
    } else if i == 11 {
        ("Subscriptions"@, "📱"@)
    } else if i == 12 {
        ("Fitness"@, "🏋️"@)
    } else if i == 13 {
        ("Coffee"@, "☕"@)
    } else if i == 14 {
        ("Gifts"@, "🎁"@)
    } else if i == 15 {
        ("Freelance"@, "💻"@)
    } else if i == 16 {
        ("Investments"@, "📈"@)
    } else {
        ("Other"@, "💰"@)
    }
}

/// Name and icon of the `i`-th default category.
pub fn default_category(i: usize) -> (r: (&'static str, &'static str))
    requires
        i < DEFAULT_CATEGORY_COUNT,
    ensures
        r.0@ == default_category_spec(i as int).0,
        r.1@ == default_category_spec(i as int).1,
{
    match i {
        0 => ("Salary", "💼"),
        1 => ("Food & Dining", "🍔"),
        2 => ("Groceries", "🛒"),
        3 => ("Transportation", "🚗"),
        4 => ("Housing & Rent", "🏠"),
        5 => ("Utilities", "⚡"),
        6 => ("Entertainment", "🎬"),
        7 => ("Shopping", "👕"),
        8 => ("Health", "💊"),
        9 => ("Education", "📚"),
        10 => ("Travel", "✈️"),
        11 => ("Subscriptions", "📱"),
        12 => ("Fitness", "🏋️"),
        13 => ("Coffee", "☕"),
        14 => ("Gifts", "🎁"),
        15 => ("Freelance", "💻"),
        16 => ("Investments", "📈"),
        _ => ("Other", "💰"),
    }
}

/// Whether `c` is the `i`-th default category of a user, freshly created.
pub open spec fn is_default_category(c: Category, user_id: EntityId, i: int) -> bool {
    &&& c.user_id == user_id
    &&& c.name@ == default_category_spec(i).0
    &&& c.icon matches Some(icon) && icon@ == default_category_spec(i).1
    &&& c.sync_status == SyncStatus::Pending
    &&& c.version == 1
    &&& c.base.deleted_at is None
}

/// Message of the error for a blank category name.
pub open spec fn category_name_message() -> Seq<char> {
    "Category name cannot be empty"@
}

/// The category after a change made through the use cases: awaiting synchronization, its
/// version one higher, updated at `at`.
pub open spec fn changed_category(c: Category, at: Timestamp) -> Category {
    Category {
        sync_status: SyncStatus::Pending,
        version: (c.version + 1) as i64,
        base: BaseEntity { updated_at: at, ..c.base },
        ..c
    }
}

/// The category soft-deleted at `at` through the use cases.
pub open spec fn deleted_category(c: Category, at: Timestamp) -> Category {
    Category { base: BaseEntity { deleted_at: Some(at), ..changed_category(c, at).base }, ..changed_category(c, at) }
}

/// Operations on categories.
pub struct CategoryUseCases<'a> {
    pub repo: &'a mut InMemoryCategoryRepository,
}

impl<'a> CategoryUseCases<'a> {
    /// Operations over the categories of `repo`.
    pub fn new(repo: &'a mut InMemoryCategoryRepository) -> (r: CategoryUseCases<'a>)
        ensures
            *r.repo == *old(repo),
            *final(r.repo) == *final(repo),
    {
        CategoryUseCases { repo }
    }

    /// The user's live categories when there are any (nothing changes then); otherwise the
    /// eighteen default categories, created and stored in order.
    pub fn seed_default_categories(&mut self, user_id: EntityId) -> (r: Result<Vec<Category>, DomainError>)
        requires
            old(self).repo.wf(),
        ensures
            final(self).repo.wf(),
            *final(final(self).repo) == *final(old(self).repo),
            old(self).repo@.filter(accepted(CategoriesOf { user_id })).len() > 0 ==> (r matches Ok(v)
                && v@ == old(self).repo@.filter(accepted(CategoriesOf { user_id }))
                && final(self).repo@ == old(self).repo@),
            old(self).repo@.filter(accepted(CategoriesOf { user_id })).len() == 0 ==> (r matches Ok(v) ==> {
                &&& v@.len() == DEFAULT_CATEGORY_COUNT
                &&& forall|i: int| 0 <= i < v@.len() ==> #[trigger] is_default_category(v@[i], user_id, i)
                &&& final(self).repo@ == old(self).repo@ + v@
            }),
            r matches Err(e) ==> e is Storage && e.message() == duplicate_category_message(),
    {
        let existing = self.repo.find_by_user_id(user_id)?;
        if existing.len() > 0 {
            return Ok(existing);
        }
        let mut categories: Vec<Category> = Vec::new();
        let mut i: usize = 0;
        while i < DEFAULT_CATEGORY_COUNT
            invariant
                old(self).repo@.filter(accepted(CategoriesOf { user_id })).len() == 0,
                self.repo.wf(),
                *final(self.repo) == *final(old(self).repo),
                i <= DEFAULT_CATEGORY_COUNT,
                categories@.len() == i,
                forall|j: int| 0 <= j < i ==> #[trigger] is_default_category(categories@[j], user_id, j),
                self.repo@ == old(self).repo@ + categories@,
            decreases DEFAULT_CATEGORY_COUNT - i,
        {
            let (name, icon) = default_category(i);
            let category = Category::new(user_id, name.to_string(), Some(icon.to_string()));
            self.repo.save(&category)?;
            categories.push(category);
            proof {
                assert(self.repo@ == old(self).repo@ + categories@);
            }
            i += 1;
        }
        Ok(categories)
    }

    /// Creates and stores a category awaiting synchronization; the name must not be blank.
    pub fn create_category(&mut self, user_id: EntityId, name: String, icon: Option<String>)
        -> (r: Result<Category, DomainError>)
        requires
            old(self).repo.wf(),
        ensures
            final(self).repo.wf(),
            *final(final(self).repo) == *final(old(self).repo),
            blank(name@) ==> (r matches Err(e) && e is Validation && e.message() == category_name_message()),
            !blank(name@) ==> (r is Ok || (r matches Err(e) && e is Storage && e.message() == duplicate_category_message())),
            !blank(name@) && old(self).repo@.len() == 0 ==> r is Ok,
            r matches Ok(c) ==> c.user_id == user_id && c.name == name && c.icon == icon
                && c.sync_status == SyncStatus::Pending && c.version == 1 && c.base.deleted_at is None
                && final(self).repo@ == old(self).repo@.push(c),
            r is Err ==> final(self).repo@ == old(self).repo@,
    {
        if is_blank(name.as_str()) {
            return Err(validation("Category name cannot be empty"));
        }
        let category = Category::new(user_id, name, icon);
        self.repo.save(&category)?;
        Ok(category)
    }

    /// The live category with identifier `id`; fails when there is none.
    pub fn get_category(&self, id: EntityId) -> (r: Result<Category, DomainError>)
        requires
            self.repo.wf(),
        ensures
            r is Ok <==> lookup_live(old(self.repo)@, id) is Some,
            r matches Ok(c) ==> lookup_live(old(self.repo)@, id) == Some(c),
            r matches Err(e) ==> e is NotFound && e.message() == not_found_text("Category"@, id),
    {
        match self.repo.find_by_id(id)? {
            Some(c) => Ok(c),
            None => Err(not_found("Category", id)),
        }
    }

    /// The live categories of a user, in storage order.
    pub fn list_categories(&self, user_id: EntityId) -> (r: Result<Vec<Category>, DomainError>)
        ensures
            r matches Ok(v) && v@ == old(self.repo)@.filter(accepted(CategoriesOf { user_id })),
    {
        self.repo.find_by_user_id(user_id)
    }

    /// Soft-deletes the live category with identifier `id`: it is marked deleted now, awaits
    /// synchronization and its version grows by one. Fails when there is no such category.
    pub fn delete_category(&mut self, id: EntityId) -> (r: Result<(), DomainError>)
        requires
            old(self).repo.wf(),
            lookup_live(old(self).repo@, id) matches Some(c) ==> c.version < i64::MAX,
        ensures
            final(self).repo.wf(),
            *final(final(self).repo) == *final(old(self).repo),
            r is Ok <==> lookup_live(old(self).repo@, id) is Some,
            r matches Err(e) ==> e is NotFound && e.message() == not_found_text("Category"@, id)
                && final(self).repo@ == old(self).repo@,
            r is Ok ==> exists|at: Timestamp| final(self).repo@ == rows_revised(
                old(self).repo@,
                deleted_category(lookup_live(old(self).repo@, id)->Some_0, at),
            ),
    {
        let mut category = self.get_category(id)?;
        category.base.soft_delete();
        category.sync_status = SyncStatus::Pending;
        category.version = category.version + 1;
        self.repo.update(&category)?;
        assert(category == deleted_category(lookup_live(old(self).repo@, id)->Some_0, category.base.updated_at));
        Ok(())
    }

    /// Renames the live category with identifier `id` (when a name is given, then not blank)
    /// and/or changes its icon (when given); it then awaits synchronization, its version grows
    /// by one and it is updated now. Returns the category as stored.
    pub fn update_category(&mut self, id: EntityId, name: Option<String>, icon: Option<Option<String>>)
        -> (r: Result<Category, DomainError>)
        requires
            old(self).repo.wf(),
            lookup_live(old(self).repo@, id) matches Some(c) ==> c.version < i64::MAX,
        ensures
            final(self).repo.wf(),
            *final(final(self).repo) == *final(old(self).repo),
            lookup_live(old(self).repo@, id) is None ==> (r matches Err(e) && e is NotFound
                && e.message() == not_found_text("Category"@, id)),
            lookup_live(old(self).repo@, id) is Some && (name matches Some(n) && blank(n@)) ==> (r matches Err(e)
                && e is Validation && e.message() == category_name_message()),
            lookup_live(old(self).repo@, id) is Some && !(name matches Some(n) && blank(n@)) ==> r is Ok,
            r is Err ==> final(self).repo@ == old(self).repo@,
            r matches Ok(c) ==> ({
                let stored = lookup_live(old(self).repo@, id)->Some_0;
                &&& lookup_live(old(self).repo@, id) is Some
                &&& c == changed_category(Category {
                    name: match name { Some(n) => n, None => stored.name },
                    icon: match icon { Some(i) => i, None => stored.icon },
                    ..stored
                }, c.base.updated_at)
                &&& final(self).repo@ == rows_revised(old(self).repo@, c)
            }),
    {
        let mut category = self.get_category(id)?;
        if let Some(n) = name {
            if is_blank(n.as_str()) {
                return Err(validation("Category name cannot be empty"));
            }
            category.name = n;
        }
        if let Some(i) = icon {
            category.icon = i;
        }
        category.base.touch();
        category.sync_status = SyncStatus::Pending;
        category.version = category.version + 1;
        self.repo.update(&category)?;
        Ok(category)
    }
}

} // verus!
