//! Properties that hold across the operations of the library: what a read gives back
//! after a write, how soft deletion and transfers affect balances, how listings are
//! ordered and paged, and how synchronization resolves conflicts.
use vstd::prelude::*;
use vstd::seq_lib::{to_multiset_build, to_multiset_insert};
use crate::entities::common::{SyncStatus, TransactionType};
use crate::entities::transaction::Transaction;
use crate::ids::EntityId;
use crate::queries::{lemma_slot_bounds, page_of, slot, stable_sort, sum_by};
use crate::records::{
    Record, Retirable, Revisable, has_key, lemma_lookup, lookup, lookup_live, rows_retired, rows_revised, unique_keys,
};
use crate::repositories::transaction_repository::{IncomeOf, OutflowOf, weight_of};
use crate::time::Timestamp;

verus! {

/// A record stored under a new identifier is what a read by that identifier gives back,
/// and the identifiers stay unique.
pub proof fn lemma_read_after_save<T: Retirable>(rows: Seq<T>, x: T)
    requires
        unique_keys(rows),
        !has_key(rows, x.key()),
    ensures
        unique_keys(rows.push(x)),
        lookup(rows.push(x), x.key()) == Some(x),
        lookup_live(rows.push(x), x.key()) == if x.retired() { None } else { Some(x) },
        forall|id: EntityId| id != x.key() ==> #[trigger] lookup(rows.push(x), id) == lookup(rows, id),
{
    assert(rows.push(x).drop_last() =~= rows);
    assert forall|i: int, j: int| 0 <= i < rows.push(x).len() && 0 <= j < rows.push(x).len() && i != j
        implies #[trigger] rows.push(x)[i].key() != #[trigger] rows.push(x)[j].key() by {
        if i == rows.len() {
            assert(rows[j].key() != x.key());
        } else if j == rows.len() {
            assert(rows[i].key() != x.key());
        }
    }
}

/// After an update, a read by the updated identifier gives the stored record revised with
/// the update, reads by other identifiers are unchanged, and the identifiers stay unique.
pub proof fn lemma_read_after_update<T: Revisable>(rows: Seq<T>, x: T)
    requires
        unique_keys(rows),
    ensures
        unique_keys(rows_revised(rows, x)),
        lookup(rows_revised(rows, x), x.key()) == match lookup(rows, x.key()) {
            Some(stored) => Some(T::revised(stored, x)),
            None => None,
        },
        forall|id: EntityId| id != x.key() ==> #[trigger] lookup(rows_revised(rows, x), id) == lookup(rows, id),
{
    let s = rows_revised(rows, x);
    assert forall|i: int| 0 <= i < s.len() implies #[trigger] s[i].key() == rows[i].key() by {
        if rows[i].key() == x.key() {
            T::lemma_revised_key(rows[i], x);
        }
    }
    assert forall|i: int, j: int| 0 <= i < s.len() && 0 <= j < s.len() && i != j
        implies #[trigger] s[i].key() != #[trigger] s[j].key() by {
        assert(s[i].key() == rows[i].key() && s[j].key() == rows[j].key());
    }
    lemma_lookup(rows, x.key());
    lemma_lookup(s, x.key());
    if has_key(rows, x.key()) {
        let i = choose|i: int| 0 <= i < rows.len() && #[trigger] rows[i].key() == x.key();
        assert(s[i].key() == x.key());
    } else {
        assert forall|i: int| 0 <= i < s.len() implies #[trigger] s[i].key() != x.key() by {
            assert(s[i].key() == rows[i].key());
        }
    }
    assert forall|id: EntityId| id != x.key() implies #[trigger] lookup(s, id) == lookup(rows, id) by {
        lemma_lookup(rows, id);
        lemma_lookup(s, id);
        if has_key(rows, id) {
            let i = choose|i: int| 0 <= i < rows.len() && #[trigger] rows[i].key() == id;
            assert(s[i] == rows[i]);
        } else {
            assert forall|i: int| 0 <= i < s.len() implies #[trigger] s[i].key() != id by {
                assert(s[i].key() == rows[i].key());
            }
        }
    }
}

/// Soft deletion removes nothing: the same records stay under the same identifiers, the
/// deleted one marked deleted, so that a read of live records no longer finds it.
pub proof fn lemma_read_after_delete<T: Retirable>(rows: Seq<T>, id: EntityId, now: Timestamp)
    requires
        unique_keys(rows),
    ensures
        rows_retired(rows, id, now).len() == rows.len(),
        unique_keys(rows_retired(rows, id, now)),
        forall|k: EntityId| #[trigger] has_key(rows_retired(rows, id, now), k) == has_key(rows, k),
        lookup(rows_retired(rows, id, now), id) == match lookup(rows, id) {
            Some(r) => Some(r.retired_at(now)),
            None => None,
        },
        lookup_live(rows_retired(rows, id, now), id) is None,
{
    let s = rows_retired(rows, id, now);
    assert forall|i: int| 0 <= i < s.len() implies #[trigger] s[i].key() == rows[i].key() by {
        if rows[i].key() == id {
            T::lemma_retired_key(rows[i], now);
        }
    }
    assert forall|i: int, j: int| 0 <= i < s.len() && 0 <= j < s.len() && i != j
        implies #[trigger] s[i].key() != #[trigger] s[j].key() by {
        assert(s[i].key() == rows[i].key() && s[j].key() == rows[j].key());
    }
    assert forall|k: EntityId| #[trigger] has_key(s, k) == has_key(rows, k) by {
        if has_key(rows, k) {
            let i = choose|i: int| 0 <= i < rows.len() && #[trigger] rows[i].key() == k;
            assert(s[i].key() == k);
        }
        if has_key(s, k) {
            let i = choose|i: int| 0 <= i < s.len() && #[trigger] s[i].key() == k;
            assert(rows[i].key() == k);
        }
    }
    lemma_lookup(rows, id);
    lemma_lookup(s, id);
    if has_key(rows, id) {
        let i = choose|i: int| 0 <= i < rows.len() && #[trigger] rows[i].key() == id;
        assert(s[i].key() == id);
        T::lemma_retired_key(rows[i], now);
    }
}

/// Balance of account `a` over the stored transactions: its live income minus its live
/// expenses and outgoing transfers.
pub open spec fn balance_of(rows: Seq<Transaction>, a: EntityId) -> int {
    sum_by(rows, weight_of(IncomeOf { account_id: a })) - sum_by(rows, weight_of(OutflowOf { account_id: a }))
}

/// Storing one more transaction adds its weight to every sum.
pub proof fn lemma_sum_push<T>(s: Seq<T>, x: T, f: spec_fn(T) -> int)
    ensures
        sum_by(s.push(x), f) == sum_by(s, f) + f(x),
{
    assert(s.push(x).drop_last() =~= s);
}

/// Replacing one element changes a sum by the difference of the two weights.
pub proof fn lemma_sum_update<T>(s: Seq<T>, i: int, y: T, f: spec_fn(T) -> int)
    requires
        0 <= i < s.len(),
    ensures
        sum_by(s.update(i, y), f) == sum_by(s, f) - f(s[i]) + f(y),
    decreases s.len(),
{
    if i == s.len() - 1 {
        assert(s.update(i, y).drop_last() =~= s.drop_last());
    } else {
        lemma_sum_update(s.drop_last(), i, y, f);
        assert(s.update(i, y).drop_last() =~= s.drop_last().update(i, y));
    }
}

/// A transfer is zero-sum: its two paired transactions take the amount off the source
/// account's balance and add it to the destination's, leaving every other balance, and the
/// sum of the two accounts' balances, unchanged.
pub proof fn lemma_transfer_zero_sum(rows: Seq<Transaction>, out: Transaction, inc: Transaction, a: EntityId)
    requires
        out.account_id != inc.account_id,
        out.transaction_type == TransactionType::Transfer,
        inc.transaction_type == TransactionType::Income,
        out.amount == inc.amount,
        !out.deleted(),
        !inc.deleted(),
    ensures
        balance_of(rows.push(out).push(inc), a) == balance_of(rows, a) + (if a == inc.account_id { inc.amount as int } else { 0 })
            - (if a == out.account_id { out.amount as int } else { 0 }),
        balance_of(rows.push(out).push(inc), out.account_id) + balance_of(rows.push(out).push(inc), inc.account_id)
            == balance_of(rows, out.account_id) + balance_of(rows, inc.account_id),
{
    let t = rows.push(out).push(inc);
    assert forall|b: EntityId| #[trigger] balance_of(t, b) == balance_of(rows, b) + (if b == inc.account_id { inc.amount as int } else { 0 })
        - (if b == out.account_id { out.amount as int } else { 0 }) by {
        lemma_sum_push(rows, out, weight_of(IncomeOf { account_id: b }));
        lemma_sum_push(rows.push(out), inc, weight_of(IncomeOf { account_id: b }));
        lemma_sum_push(rows, out, weight_of(OutflowOf { account_id: b }));
        lemma_sum_push(rows.push(out), inc, weight_of(OutflowOf { account_id: b }));
    }
    assert(balance_of(t, a) == balance_of(rows, a) + (if a == inc.account_id { inc.amount as int } else { 0 })
        - (if a == out.account_id { out.amount as int } else { 0 }));
    assert(balance_of(t, out.account_id) == balance_of(rows, out.account_id) - out.amount);
    assert(balance_of(t, inc.account_id) == balance_of(rows, inc.account_id) + inc.amount);
}

/// Soft-deleting a live transaction takes its effect off its account's balance; no other
/// balance changes, and deleting a deleted transaction changes nothing.
pub proof fn lemma_delete_removes_effect(rows: Seq<Transaction>, id: EntityId, now: Timestamp, a: EntityId)
    requires
        unique_keys(rows),
        has_key(rows, id),
    ensures
        ({
            let t = lookup(rows, id)->Some_0;
            balance_of(crate::repositories::transaction_repository::rows_after_delete(rows, id, now), a)
                == balance_of(rows, a) - (if t.account_id == a && !t.deleted() { t.effect() } else { 0 })
        }),
{
    lemma_lookup(rows, id);
    let i = choose|i: int| 0 <= i < rows.len() && #[trigger] rows[i].key() == id;
    let t = rows[i];
    let s = crate::repositories::transaction_repository::rows_after_delete(rows, id, now);
    assert(s =~= rows.update(i, s[i])) by {
        assert forall|j: int| 0 <= j < rows.len() && j != i implies #[trigger] s[j] == rows[j] by {
            assert(rows[j].key() != rows[i].key());
        }
    }
    lemma_sum_update(rows, i, s[i], weight_of(IncomeOf { account_id: a }));
    lemma_sum_update(rows, i, s[i], weight_of(OutflowOf { account_id: a }));
}

/// Where an element is placed: after every element it does not come before, and before
/// the first one it does.
pub proof fn lemma_slot_props<T>(s: Seq<T>, x: T, before: spec_fn(T, T) -> bool)
    ensures
        forall|k: int| 0 <= k < slot(s, x, before) ==> !before(x, #[trigger] s[k]),
        slot(s, x, before) < s.len() ==> before(x, s[slot(s, x, before)]),
    decreases s.len(),
{
    lemma_slot_bounds(s, x, before);
    if s.len() > 0 && !before(x, s[0]) {
        let t = s.drop_first();
        lemma_slot_props(t, x, before);
        lemma_slot_bounds(t, x, before);
        assert(slot(s, x, before) == 1 + slot(t, x, before));
        assert forall|k: int| 0 <= k < slot(s, x, before) implies !before(x, #[trigger] s[k]) by {
            if k > 0 {
                assert(s[k] == t[k - 1]);
            }
        }
        if slot(s, x, before) < s.len() {
            assert(s[slot(s, x, before)] == t[slot(t, x, before)]);
        }
    }
}

/// Largest key first, as a relation.
pub open spec fn by_key_desc<T>(key: spec_fn(T) -> int) -> spec_fn(T, T) -> bool {
    |a: T, b: T| key(a) > key(b)
}

/// Ordering by a key, largest first, keeps exactly the same elements and lists them with
/// non-increasing keys (equal keys in their original order).
pub proof fn lemma_sorted_by_key<T>(s: Seq<T>, key: spec_fn(T) -> int)
    ensures
        stable_sort(s, by_key_desc(key)).len() == s.len(),
        stable_sort(s, by_key_desc(key)).to_multiset() == s.to_multiset(),
        forall|i: int, j: int| 0 <= i < j < s.len() ==> key(
            #[trigger] stable_sort(s, by_key_desc(key))[i],
        ) >= key(#[trigger] stable_sort(s, by_key_desc(key))[j]),
    decreases s.len(),
{
    let before = by_key_desc(key);
    if s.len() > 0 {
        let u = s.drop_last();
        let x = s.last();
        lemma_sorted_by_key(u, key);
        let r = stable_sort(u, before);
        let p = slot(r, x, before);
        lemma_slot_bounds(r, x, before);
        lemma_slot_props(r, x, before);
        let q = r.insert(p, x);
        assert(stable_sort(s, before) == q);
        to_multiset_build(u, x);
        assert(u.push(x) =~= s);
        to_multiset_insert(r, p, x);
        assert forall|i: int, j: int| 0 <= i < j < q.len() implies key(#[trigger] q[i]) >= key(#[trigger] q[j]) by {
            if j < p {
                assert(q[i] == r[i] && q[j] == r[j]);
            } else if j == p {
                assert(q[i] == r[i]);
                assert(!before(x, r[i]));
            } else if i < p {
                assert(q[i] == r[i] && q[j] == r[j - 1]);
                if i < j - 1 {
                    assert(key(r[i]) >= key(r[j - 1]));
                }
            } else if i == p {
                assert(q[j] == r[j - 1]);
                assert(before(x, r[p]));
                if p < j - 1 {
                    assert(key(r[p]) >= key(r[j - 1]));
                }
            } else {
                assert(q[i] == r[i - 1] && q[j] == r[j - 1]);
            }
        }
    }
}

/// Transaction listings hold exactly the matching transactions, latest date first.
pub proof fn lemma_search_results_ordered(
    rows: Seq<Transaction>,
    f: crate::entities::search::TransactionSearchFilter,
)
    ensures
        ({
            let r = crate::repositories::transaction_repository::search_results(rows, f);
            let matching = rows.filter(crate::repositories::transaction_repository::selects(f));
            &&& r.to_multiset() == matching.to_multiset()
            &&& forall|i: int, j: int| 0 <= i < j < r.len() ==> (#[trigger] r[i]).date.unix() >= (#[trigger] r[j]).date.unix()
        }),
{
    let matching = rows.filter(crate::repositories::transaction_repository::selects(f));
    let key = |t: Transaction| t.date.unix() as int;
    assert(crate::repositories::transaction_repository::by_date_desc() =~= by_key_desc(key));
    lemma_sorted_by_key(matching, key);
}

/// Consecutive pages together form the page that spans both.
pub proof fn lemma_consecutive_pages<T>(s: Seq<T>, offset: int, first: int, second: int)
    requires
        0 <= offset,
        0 <= first,
        0 <= second,
    ensures
        page_of(s, offset, first) + page_of(s, offset + first, second) == page_of(s, offset, first + second),
{
    let n = s.len() as int;
    let a = if offset < n { offset } else { n };
    let b = if a + first < n { a + first } else { n };
    let c = if offset + first < n { offset + first } else { n };
    assert(b == c);
    assert(s.subrange(a, b) + s.subrange(b, if b + second < n { b + second } else { n })
        =~= s.subrange(a, if a + first + second < n { a + first + second } else { n }));
}

/// A page never holds more than the page size, and there are more results after it exactly
/// when it ends before the last result.
pub proof fn lemma_page_bounds<T>(s: Seq<T>, offset: int, limit: int)
    requires
        0 <= offset,
        0 <= limit,
    ensures
        page_of(s, offset, limit).len() <= limit,
        (offset + page_of(s, offset, limit).len() < s.len()) <==> (offset + limit < s.len()),
{
}

/// Linking a transaction to a tag twice is the same as linking it once.
pub proof fn lemma_link_idempotent(
    links: Seq<crate::entities::tag::TransactionTag>,
    transaction_id: EntityId,
    tag_id: EntityId,
)
    ensures
        crate::repositories::tag_repository::links_after_add(
            crate::repositories::tag_repository::links_after_add(links, transaction_id, tag_id),
            transaction_id,
            tag_id,
        ) == crate::repositories::tag_repository::links_after_add(links, transaction_id, tag_id),
        crate::repositories::tag_repository::linked(
            crate::repositories::tag_repository::links_after_add(links, transaction_id, tag_id),
            transaction_id,
            tag_id,
        ),
{
    let l = crate::entities::tag::TransactionTag { transaction_id, tag_id };
    if !links.contains(l) {
        assert(links.push(l)[links.len() as int] == l);
    }
}

/// Unlinking a transaction from a tag undoes linking them, when they were not linked before.
pub proof fn lemma_unlink_undoes_link(
    links: Seq<crate::entities::tag::TransactionTag>,
    transaction_id: EntityId,
    tag_id: EntityId,
)
    requires
        !crate::repositories::tag_repository::linked(links, transaction_id, tag_id),
    ensures
        crate::repositories::tag_repository::links_after_add(links, transaction_id, tag_id).filter(
            |l: crate::entities::tag::TransactionTag| l != (crate::entities::tag::TransactionTag { transaction_id, tag_id }),
        ) == links,
{
    let link = crate::entities::tag::TransactionTag { transaction_id, tag_id };
    let p = |l: crate::entities::tag::TransactionTag| l != link;
    reveal_with_fuel(Seq::filter, 1);
    assert(links.push(link).drop_last() =~= links);
    assert forall|i: int| 0 <= i < links.len() implies p(#[trigger] links[i]) by {
        if links[i] == link {
            assert(links.contains(link));
        }
    }
    lemma_filter_keeps_all(links, p);
}

/// Once a tag is deleted, no transaction is linked to it.
pub proof fn lemma_deleted_tag_unlinked(links: Seq<crate::entities::tag::TransactionTag>, tag_id: EntityId)
    ensures
        crate::repositories::tag_repository::transactions_of_tag(
            links.filter(|l: crate::entities::tag::TransactionTag| l.tag_id != tag_id),
            tag_id,
        ).len() == 0,
{
    let kept = links.filter(|l: crate::entities::tag::TransactionTag| l.tag_id != tag_id);
    crate::queries::lemma_filter_members(links, |l: crate::entities::tag::TransactionTag| l.tag_id != tag_id);
    crate::queries::lemma_filter_members(kept, |l: crate::entities::tag::TransactionTag| l.tag_id == tag_id);
    let found = kept.filter(|l: crate::entities::tag::TransactionTag| l.tag_id == tag_id);
    if found.len() > 0 {
        assert(kept.contains(found[0]));
        let k = choose|k: int| 0 <= k < kept.len() && kept[k] == found[0];
        assert(kept[k].tag_id != tag_id);
    }
}

/// Seeding default categories is idempotent: once a user without categories has been given
/// the defaults, the user's live categories are exactly those defaults, so seeding again
/// returns them and creates nothing.
pub proof fn lemma_seed_idempotent(
    rows: Seq<crate::entities::category::Category>,
    seeded: Seq<crate::entities::category::Category>,
    user_id: EntityId,
)
    requires
        rows.filter(crate::records::accepted(crate::repositories::category_repository::CategoriesOf { user_id })).len() == 0,
        seeded.len() == crate::use_cases::category_use_cases::DEFAULT_CATEGORY_COUNT,
        forall|i: int| 0 <= i < seeded.len()
            ==> #[trigger] crate::use_cases::category_use_cases::is_default_category(seeded[i], user_id, i),
    ensures
        (rows + seeded).filter(crate::records::accepted(crate::repositories::category_repository::CategoriesOf { user_id }))
            == seeded,
        (rows + seeded).filter(crate::records::accepted(crate::repositories::category_repository::CategoriesOf { user_id })).len() > 0,
{
    let p = crate::records::accepted(crate::repositories::category_repository::CategoriesOf { user_id });
    Seq::filter_distributes_over_add(rows, seeded, p);
    assert forall|i: int| 0 <= i < seeded.len() implies p(#[trigger] seeded[i]) by {
        assert(crate::use_cases::category_use_cases::is_default_category(seeded[i], user_id, i));
    }
    lemma_filter_keeps_all(seeded, p);
    assert(rows.filter(p) =~= Seq::<crate::entities::category::Category>::empty());
    assert(seeded[0] == seeded[0]);
}

/// Keeping the elements that all satisfy the predicate keeps the sequence.
pub proof fn lemma_filter_keeps_all<T>(s: Seq<T>, p: spec_fn(T) -> bool)
    requires
        forall|i: int| 0 <= i < s.len() ==> p(#[trigger] s[i]),
    ensures
        s.filter(p) == s,
    decreases s.len(),
{
    reveal_with_fuel(Seq::filter, 1);
    if s.len() > 0 {
        let t = s.drop_last();
        assert forall|i: int| 0 <= i < t.len() implies p(#[trigger] t[i]) by {
            assert(t[i] == s[i]);
        }
        lemma_filter_keeps_all(t, p);
        assert(p(s[s.len() - 1]));
        assert(t.push(s.last()) =~= s);
    }
}

/// A user override is the best rate for its pair as soon as it is stored, whatever other
/// rates are stored.
pub proof fn lemma_override_wins(
    rows: Seq<crate::entities::exchange_rate::ExchangeRate>,
    x: crate::entities::exchange_rate::ExchangeRate,
)
    requires
        x.source == crate::entities::exchange_rate::RateSource::UserOverride,
    ensures
        crate::repositories::exchange_rate_repository::is_best_rate(
            crate::repositories::exchange_rate_repository::rows_saved(rows, x),
            x.from_currency@,
            x.to_currency@,
            x,
        ),
{
    let saved = crate::repositories::exchange_rate_repository::rows_saved(rows, x);
    let pr = |r: crate::entities::exchange_rate::ExchangeRate| r.from_currency@ == x.from_currency@ && r.to_currency@ == x.to_currency@;
    saved.lemma_filter_contains(pr, saved.len() - 1);
    assert(saved[saved.len() - 1] == x);
}

/// Converting at the identity rate (1.0) gives back the amount.
pub proof fn lemma_identity_conversion(amount: i64)
    ensures
        crate::entities::exchange_rate::converted(amount, crate::entities::exchange_rate::RATE_PRECISION) == amount,
{
    let a = amount as int;
    assert((a * 1_000_000) / 1_000_000 == a) by (nonlinear_arith);
    assert((-(a * 1_000_000)) / 1_000_000 == -a) by (nonlinear_arith);
}

/// Last write wins: resolving a conflict keeps the entity's identity, account and creation
/// and deletion times, gives it the higher of the two versions, and takes the server's data
/// (and marks it synchronized) exactly when the server's version is higher; otherwise the
/// local data stays and awaits synchronization again.
pub proof fn lemma_lww_transaction(local: Transaction, change: crate::sync::ServerChange)
    requires
        change.data.transaction is Some || change.version <= local.version,
    ensures
        ({
            let n = crate::sync::lww_transaction(local, change)->Some_0;
            &&& crate::sync::lww_transaction(local, change) is Some
            &&& n.base == local.base
            &&& n.account_id == local.account_id
            &&& n.linked_transaction_id == local.linked_transaction_id
            &&& n.version == if change.version > local.version { change.version } else { local.version }
            &&& (n.sync_status == SyncStatus::Synced) == (change.version > local.version)
            &&& change.version <= local.version ==> n == (Transaction { sync_status: SyncStatus::Pending, ..local })
            &&& change.version > local.version ==> n.amount == change.data.transaction->Some_0.amount
                && n.date == change.data.transaction->Some_0.date
                && n.category_id == change.data.transaction->Some_0.category_id
                && n.transaction_type == change.data.transaction->Some_0.transaction_type
                && n.description == change.data.transaction->Some_0.description
        }),
{
}

/// Last write wins for accounts: the owner, identity and times stay, the version becomes
/// the higher of the two, and the server's name and currency are taken exactly when its
/// version is higher.
pub proof fn lemma_lww_account(local: crate::entities::account::Account, change: crate::sync::ServerChange)
    requires
        change.data.account is Some || change.version <= local.version,
    ensures
        ({
            let n = crate::sync::lww_account(local, change)->Some_0;
            &&& crate::sync::lww_account(local, change) is Some
            &&& n.base == local.base
            &&& n.user_id == local.user_id
            &&& n.version == if change.version > local.version { change.version } else { local.version }
            &&& (n.sync_status == SyncStatus::Synced) == (change.version > local.version)
            &&& change.version > local.version ==> n.name == change.data.account->Some_0.name
                && n.currency == change.data.account->Some_0.currency
            &&& change.version <= local.version ==> n.name == local.name && n.currency == local.currency
        }),
{
}

/// Last write wins for categories: the owner, identity and times stay, the version becomes
/// the higher of the two, and the server's name and icon are taken exactly when its
/// version is higher.
pub proof fn lemma_lww_category(local: crate::entities::category::Category, change: crate::sync::ServerChange)
    requires
        change.data.category is Some || change.version <= local.version,
    ensures
        ({
            let n = crate::sync::lww_category(local, change)->Some_0;
            &&& crate::sync::lww_category(local, change) is Some
            &&& n.base == local.base
            &&& n.user_id == local.user_id
            &&& n.version == if change.version > local.version { change.version } else { local.version }
            &&& (n.sync_status == SyncStatus::Synced) == (change.version > local.version)
            &&& change.version > local.version ==> n.name == change.data.category->Some_0.name
                && n.icon == change.data.category->Some_0.icon
            &&& change.version <= local.version ==> n.name == local.name && n.icon == local.icon
        }),
{
}

/// An entity the server accepted reads back synchronized, with its data and version
/// unchanged: the live account with the identifier, or else the live category, or else
/// the stored transaction.
pub proof fn lemma_accepted_reads_synced(st: crate::sync::SyncState, id: EntityId, at: Timestamp)
    requires
        unique_keys(st.0),
        unique_keys(st.1),
        unique_keys(st.2),
    ensures
        ({
            let m = crate::sync::mark_state(st, id, at);
            &&& lookup_live(st.0, id) matches Some(a) ==> lookup(m.0, id) matches Some(b)
                && b.sync_status == SyncStatus::Synced && b.version == a.version && b.name == a.name
                && m.1 == st.1 && m.2 == st.2
            &&& lookup_live(st.0, id) is None ==> (lookup_live(st.1, id) matches Some(c) ==> lookup(m.1, id) matches Some(d)
                && d.sync_status == SyncStatus::Synced && d.version == c.version && d.name == c.name
                && m.0 == st.0 && m.2 == st.2)
            &&& lookup_live(st.0, id) is None && lookup_live(st.1, id) is None ==> (lookup(st.2, id) matches Some(t)
                ==> lookup(m.2, id) matches Some(u) && u.sync_status == SyncStatus::Synced && u.version == t.version
                && u.amount == t.amount && m.0 == st.0 && m.1 == st.1)
        }),
{
    if let Some(a) = lookup_live(st.0, id) {
        lemma_lookup(st.0, id);
        let b = crate::entities::account::Account {
            sync_status: SyncStatus::Synced,
            base: crate::entities::common::BaseEntity { updated_at: at, ..a.base },
            ..a
        };
        lemma_read_after_update(st.0, b);
    } else if let Some(c) = lookup_live(st.1, id) {
        lemma_lookup(st.1, id);
        let d = crate::entities::category::Category {
            sync_status: SyncStatus::Synced,
            base: crate::entities::common::BaseEntity { updated_at: at, ..c.base },
            ..c
        };
        lemma_read_after_update(st.1, d);
    } else if let Some(t) = lookup(st.2, id) {
        lemma_lookup(st.2, id);
        let u = Transaction {
            sync_status: SyncStatus::Synced,
            base: crate::entities::common::BaseEntity { updated_at: at, ..t.base },
            ..t
        };
        lemma_transaction_update(st.2, u);
    }
}

/// After an update of stored transactions, a read by the updated identifier gives the
/// update with the stored identifier and creation time, reads by other identifiers are
/// unchanged, and the identifiers stay unique.
pub proof fn lemma_transaction_update(rows: Seq<Transaction>, x: Transaction)
    requires
        unique_keys(rows),
    ensures
        unique_keys(crate::repositories::transaction_repository::rows_after_update(rows, x)),
        lookup(crate::repositories::transaction_repository::rows_after_update(rows, x), x.key()) == match lookup(rows, x.key()) {
            Some(stored) => Some(crate::repositories::transaction_repository::updated_row(stored, x)),
            None => None,
        },
        forall|id: EntityId| id != x.key()
            ==> #[trigger] lookup(crate::repositories::transaction_repository::rows_after_update(rows, x), id) == lookup(rows, id),
{
    let s = crate::repositories::transaction_repository::rows_after_update(rows, x);
    assert forall|i: int| 0 <= i < s.len() implies #[trigger] s[i].key() == rows[i].key() by {}
    assert forall|i: int, j: int| 0 <= i < s.len() && 0 <= j < s.len() && i != j
        implies #[trigger] s[i].key() != #[trigger] s[j].key() by {
        assert(s[i].key() == rows[i].key() && s[j].key() == rows[j].key());
    }
    lemma_lookup(rows, x.key());
    lemma_lookup(s, x.key());
    if has_key(rows, x.key()) {
        let i = choose|i: int| 0 <= i < rows.len() && #[trigger] rows[i].key() == x.key();
        assert(s[i].key() == x.key());
    } else {
        assert forall|i: int| 0 <= i < s.len() implies #[trigger] s[i].key() != x.key() by {
            assert(s[i].key() == rows[i].key());
        }
    }
    assert forall|id: EntityId| id != x.key() implies #[trigger] lookup(s, id) == lookup(rows, id) by {
        lemma_lookup(rows, id);
        lemma_lookup(s, id);
        if has_key(rows, id) {
            let i = choose|i: int| 0 <= i < rows.len() && #[trigger] rows[i].key() == id;
            assert(s[i] == rows[i]);
        } else {
            assert forall|i: int| 0 <= i < s.len() implies #[trigger] s[i].key() != id by {
                assert(s[i].key() == rows[i].key());
            }
        }
    }
}


/// Sorting keeps only elements of the input.
proof fn lemma_sorted_members<T>(s: Seq<T>, before: spec_fn(T, T) -> bool, x: T)
    requires
        stable_sort(s, before).contains(x),
    ensures
        s.contains(x),
    decreases s.len(),
{
    if s.len() > 0 {
        let r = stable_sort(s.drop_last(), before);
        let p = slot(r, s.last(), before);
        lemma_slot_bounds(r, s.last(), before);
        let sorted = stable_sort(s, before);
        assert(sorted == r.insert(p, s.last()));
        let k = choose|k: int| 0 <= k < sorted.len() && sorted[k] == x;
        if k == p {
            assert(s[s.len() - 1] == x);
        } else {
            if k < p {
                assert(r[k] == x);
            } else {
                assert(r[k - 1] == x);
            }
            lemma_sorted_members(s.drop_last(), before, x);
            let j = choose|j: int| 0 <= j < s.drop_last().len() && s.drop_last()[j] == x;
            assert(s[j] == x);
        }
    }
}

/// Deleting a tag takes it off every transaction: after the deletion no transaction lists
/// a tag with the deleted identifier among its tags, and a transaction that was linked to
/// that tag alone has no tags left.
pub proof fn lemma_deleted_tag_off_transactions(
    tags: Seq<crate::entities::tag::Tag>,
    links: Seq<crate::entities::tag::TransactionTag>,
    tag_id: EntityId,
    now: Timestamp,
    transaction_id: EntityId,
)
    ensures
        ({
            let kept = links.filter(|l: crate::entities::tag::TransactionTag| l.tag_id != tag_id);
            let listed = crate::repositories::tag_repository::tags_of_transaction(rows_retired(tags, tag_id, now), kept, transaction_id);
            &&& forall|k: int| 0 <= k < listed.len() ==> (#[trigger] listed[k]).key() != tag_id
            &&& (forall|l: crate::entities::tag::TransactionTag| #[trigger] links.contains(l) && l.transaction_id == transaction_id
                ==> l.tag_id == tag_id) ==> listed.len() == 0
        }),
{
    let kept = links.filter(|l: crate::entities::tag::TransactionTag| l.tag_id != tag_id);
    let after = rows_retired(tags, tag_id, now);
    let p = |t: crate::entities::tag::Tag| !t.retired() && crate::repositories::tag_repository::linked(kept, transaction_id, t.key());
    let chosen = after.filter(p);
    let listed = crate::repositories::tag_repository::tags_of_transaction(after, kept, transaction_id);
    crate::queries::lemma_filter_members(links, |l: crate::entities::tag::TransactionTag| l.tag_id != tag_id);
    crate::queries::lemma_filter_members(after, p);
    assert forall|k: int| 0 <= k < listed.len() implies (#[trigger] listed[k]).key() != tag_id by {
        assert(listed.contains(listed[k]));
        lemma_sorted_members(chosen, crate::queries::relation::<crate::entities::tag::Tag, crate::repositories::tag_repository::ByName>(), listed[k]);
        let m = choose|m: int| 0 <= m < chosen.len() && chosen[m] == listed[k];
        let link = crate::entities::tag::TransactionTag { transaction_id, tag_id: listed[k].key() };
        assert(kept.contains(link));
        let j = choose|j: int| 0 <= j < kept.len() && kept[j] == link;
        assert(kept[j].tag_id != tag_id);
    }
    if forall|l: crate::entities::tag::TransactionTag| #[trigger] links.contains(l) && l.transaction_id == transaction_id
        ==> l.tag_id == tag_id {
        if chosen.len() > 0 {
            let t = chosen[0];
            let link = crate::entities::tag::TransactionTag { transaction_id, tag_id: t.key() };
            assert(kept.contains(link));
            let j = choose|j: int| 0 <= j < kept.len() && kept[j] == link;
            assert(links.contains(kept[j]) && kept[j].tag_id != tag_id);
        }
        assert(chosen.len() == 0);
        assert(listed == chosen);
    }
}

/// Once a user override is stored for a currency pair, it is the best rate for that pair:
/// any rate that is best for the pair after the override was saved is the override itself.
pub proof fn lemma_override_decides(
    rows: Seq<crate::entities::exchange_rate::ExchangeRate>,
    x: crate::entities::exchange_rate::ExchangeRate,
    y: crate::entities::exchange_rate::ExchangeRate,
)
    requires
        x.source == crate::entities::exchange_rate::RateSource::UserOverride,
        crate::repositories::exchange_rate_repository::is_best_rate(
            crate::repositories::exchange_rate_repository::rows_saved(rows, x),
            x.from_currency@,
            x.to_currency@,
            y,
        ),
    ensures
        y == x,
{
    let saved = crate::repositories::exchange_rate_repository::rows_saved(rows, x);
    let q = |r: crate::entities::exchange_rate::ExchangeRate| !crate::repositories::exchange_rate_repository::same_slot(r, x);
    let pr = |r: crate::entities::exchange_rate::ExchangeRate| r.from_currency@ == x.from_currency@ && r.to_currency@ == x.to_currency@;
    let pairs = saved.filter(pr);
    saved.lemma_filter_contains(pr, saved.len() - 1);
    assert(saved[saved.len() - 1] == x);
    let m = choose|m: int| 0 <= m < pairs.len() && pairs[m] == x;
    assert(pairs[m].source.rank() <= y.source.rank());
    crate::entities::exchange_rate::lemma_rate_source_precedence(y.source, x.source);
    crate::queries::lemma_filter_members(saved, pr);
    crate::queries::lemma_filter_members(rows, q);
    let i = choose|i: int| 0 <= i < pairs.len() && pairs[i] == y;
    let j = choose|j: int| 0 <= j < saved.len() && saved[j] == y;
    if j < saved.len() - 1 {
        assert(rows.filter(q)[j] == y);
        assert(q(y));
    }
}

/// Rates of a pair from a higher-ranked source win: where the stored rates hold a cached
/// rate for a pair and no user override for it, the best rate for the pair is that cached
/// rate.
pub proof fn lemma_cached_beats_bundled(
    rows: Seq<crate::entities::exchange_rate::ExchangeRate>,
    x: crate::entities::exchange_rate::ExchangeRate,
    y: crate::entities::exchange_rate::ExchangeRate,
)
    requires
        crate::repositories::exchange_rate_repository::unique_slots(rows),
        rows.contains(x),
        x.source == crate::entities::exchange_rate::RateSource::Cached,
        forall|i: int| 0 <= i < rows.len() && (#[trigger] rows[i]).from_currency@ == x.from_currency@
            && rows[i].to_currency@ == x.to_currency@ ==> rows[i].source != crate::entities::exchange_rate::RateSource::UserOverride,
        crate::repositories::exchange_rate_repository::is_best_rate(rows, x.from_currency@, x.to_currency@, y),
    ensures
        y == x,
{
    let pr = |r: crate::entities::exchange_rate::ExchangeRate| r.from_currency@ == x.from_currency@ && r.to_currency@ == x.to_currency@;
    let pairs = rows.filter(pr);
    let a = choose|a: int| 0 <= a < rows.len() && rows[a] == x;
    rows.lemma_filter_contains(pr, a);
    let m = choose|m: int| 0 <= m < pairs.len() && pairs[m] == x;
    assert(pairs[m].source.rank() <= y.source.rank());
    crate::queries::lemma_filter_members(rows, pr);
    let i = choose|i: int| 0 <= i < pairs.len() && pairs[i] == y;
    let j = choose|j: int| 0 <= j < rows.len() && rows[j] == y;
    crate::entities::exchange_rate::lemma_rate_source_precedence(y.source, x.source);
    assert(y.source != crate::entities::exchange_rate::RateSource::UserOverride);
    assert(y.source == crate::entities::exchange_rate::RateSource::Cached);
    if j != a {
        assert(!crate::repositories::exchange_rate_repository::same_slot(rows[j], rows[a]));
    }
}

/// Saving rates one after another keeps every stored or saved rate only: each rate stored
/// afterwards was stored before or is one of the saved ones; and a saved rate that no later
/// saved rate replaces (same pair and source) stays stored.
pub proof fn lemma_saved_all_members(
    rows: Seq<crate::entities::exchange_rate::ExchangeRate>,
    batch: Seq<crate::entities::exchange_rate::ExchangeRate>,
)
    ensures
        forall|z: crate::entities::exchange_rate::ExchangeRate|
            #[trigger] crate::repositories::exchange_rate_repository::rows_saved_all(rows, batch).contains(z)
            ==> rows.contains(z) || batch.contains(z),
        forall|i: int| 0 <= i < batch.len() && (forall|j: int| i < j < batch.len()
            ==> !crate::repositories::exchange_rate_repository::same_slot(#[trigger] batch[j], batch[i]))
            ==> crate::repositories::exchange_rate_repository::rows_saved_all(rows, batch).contains(#[trigger] batch[i]),
    decreases batch.len(),
{
    if batch.len() > 0 {
        let front = batch.drop_last();
        let x = batch.last();
        let before = crate::repositories::exchange_rate_repository::rows_saved_all(rows, front);
        let q = |r: crate::entities::exchange_rate::ExchangeRate| !crate::repositories::exchange_rate_repository::same_slot(r, x);
        let after = crate::repositories::exchange_rate_repository::rows_saved_all(rows, batch);
        assert(after == before.filter(q).push(x));
        lemma_saved_all_members(rows, front);
        crate::queries::lemma_filter_members(before, q);
        assert forall|z: crate::entities::exchange_rate::ExchangeRate| #[trigger] after.contains(z)
            implies rows.contains(z) || batch.contains(z) by {
            let k = choose|k: int| 0 <= k < after.len() && after[k] == z;
            if k == after.len() - 1 {
                assert(batch[batch.len() - 1] == z);
            } else {
                assert(before.filter(q)[k] == z);
                assert(before.contains(z));
                if front.contains(z) {
                    let f = choose|f: int| 0 <= f < front.len() && front[f] == z;
                    assert(batch[f] == z);
                }
            }
        }
        assert forall|i: int| 0 <= i < batch.len() && (forall|j: int| i < j < batch.len()
            ==> !crate::repositories::exchange_rate_repository::same_slot(#[trigger] batch[j], batch[i]))
            implies after.contains(#[trigger] batch[i]) by {
            if i == batch.len() - 1 {
                assert(after[after.len() - 1] == x);
            } else {
                assert(front[i] == batch[i]);
                assert forall|j: int| i < j < front.len() implies
                    !crate::repositories::exchange_rate_repository::same_slot(#[trigger] front[j], front[i]) by {
                    assert(front[j] == batch[j]);
                }
                assert(before.contains(front[i]));
                assert(!crate::repositories::exchange_rate_repository::same_slot(batch[batch.len() - 1], batch[i]));
                let a = choose|a: int| 0 <= a < before.len() && before[a] == batch[i];
                before.lemma_filter_contains(q, a);
                let b = choose|b: int| 0 <= b < before.filter(q).len() && before.filter(q)[b] == batch[i];
                assert(after[b] == batch[i]);
            }
        }
    }
}


/// Cached rates beat bundled ones: after a batch of cached rates is saved over rates that
/// hold no user override for a pair, the best rate for that pair is the last cached rate of
/// the batch for it.
pub proof fn lemma_cached_update_wins(
    rows: Seq<crate::entities::exchange_rate::ExchangeRate>,
    batch: Seq<crate::entities::exchange_rate::ExchangeRate>,
    i: int,
    y: crate::entities::exchange_rate::ExchangeRate,
)
    requires
        crate::repositories::exchange_rate_repository::unique_slots(rows),
        0 <= i < batch.len(),
        forall|j: int| 0 <= j < batch.len() ==> (#[trigger] batch[j]).source == crate::entities::exchange_rate::RateSource::Cached,
        forall|j: int| i < j < batch.len() ==> !crate::repositories::exchange_rate_repository::same_slot(#[trigger] batch[j], batch[i]),
        forall|k: int| 0 <= k < rows.len() && (#[trigger] rows[k]).from_currency@ == batch[i].from_currency@
            && rows[k].to_currency@ == batch[i].to_currency@ ==> rows[k].source != crate::entities::exchange_rate::RateSource::UserOverride,
        crate::repositories::exchange_rate_repository::is_best_rate(
            crate::repositories::exchange_rate_repository::rows_saved_all(rows, batch),
            batch[i].from_currency@,
            batch[i].to_currency@,
            y,
        ),
    ensures
        y == batch[i],
{
    let after = crate::repositories::exchange_rate_repository::rows_saved_all(rows, batch);
    lemma_saved_all_members(rows, batch);
    lemma_saved_all_unique(rows, batch);
    assert forall|k: int| 0 <= k < after.len() && (#[trigger] after[k]).from_currency@ == batch[i].from_currency@
        && after[k].to_currency@ == batch[i].to_currency@ implies after[k].source != crate::entities::exchange_rate::RateSource::UserOverride by {
        assert(after.contains(after[k]));
        if rows.contains(after[k]) {
            let a = choose|a: int| 0 <= a < rows.len() && rows[a] == after[k];
        } else {
            let b = choose|b: int| 0 <= b < batch.len() && batch[b] == after[k];
        }
    }
    lemma_cached_beats_bundled(after, batch[i], y);
}

/// Saving rates keeps at most one stored rate per pair and source.
pub proof fn lemma_saved_all_unique(
    rows: Seq<crate::entities::exchange_rate::ExchangeRate>,
    batch: Seq<crate::entities::exchange_rate::ExchangeRate>,
)
    requires
        crate::repositories::exchange_rate_repository::unique_slots(rows),
    ensures
        crate::repositories::exchange_rate_repository::unique_slots(
            crate::repositories::exchange_rate_repository::rows_saved_all(rows, batch),
        ),
    decreases batch.len(),
{
    if batch.len() > 0 {
        let x = batch.last();
        let before = crate::repositories::exchange_rate_repository::rows_saved_all(rows, batch.drop_last());
        let q = |r: crate::entities::exchange_rate::ExchangeRate| !crate::repositories::exchange_rate_repository::same_slot(r, x);
        lemma_saved_all_unique(rows, batch.drop_last());
        crate::queries::lemma_filter_members(before, q);
        crate::repositories::exchange_rate_repository::lemma_filter_unique(before, q);
        let kept = before.filter(q);
        let after = kept.push(x);
        assert forall|a: int, b: int| 0 <= a < after.len() && 0 <= b < after.len() && a != b
            implies !crate::repositories::exchange_rate_repository::same_slot(#[trigger] after[a], #[trigger] after[b]) by {
            if a < kept.len() && b < kept.len() {
            } else if a < kept.len() {
                assert(q(kept[a]));
            } else {
                assert(q(kept[b]));
            }
        }
    }
}


/// Whether the entity with identifier `id` reads synchronized: the live account with that
/// identifier, or else the live category, or else the stored transaction.
pub open spec fn reads_synced(st: crate::sync::SyncState, id: EntityId) -> bool {
    match lookup_live(st.0, id) {
        Some(a) => a.sync_status == SyncStatus::Synced,
        None => match lookup_live(st.1, id) {
            Some(c) => c.sync_status == SyncStatus::Synced,
            None => match lookup(st.2, id) {
                Some(t) => t.sync_status == SyncStatus::Synced,
                None => false,
            },
        },
    }
}

/// Whether an entity with identifier `id` is stored: a live account, a live category or a
/// transaction.
pub open spec fn holds_entity(st: crate::sync::SyncState, id: EntityId) -> bool {
    lookup_live(st.0, id) is Some || lookup_live(st.1, id) is Some || lookup(st.2, id) is Some
}

/// Marking one entity synchronized leaves every other identifier's records as they were
/// and makes that entity read synchronized.
proof fn lemma_mark_step(st: crate::sync::SyncState, id: EntityId, at: Timestamp)
    requires
        unique_keys(st.0),
        unique_keys(st.1),
        unique_keys(st.2),
    ensures
        ({
            let m = crate::sync::mark_state(st, id, at);
            &&& unique_keys(m.0) && unique_keys(m.1) && unique_keys(m.2)
            &&& forall|other: EntityId| other != id ==> #[trigger] lookup(m.0, other) == lookup(st.0, other)
                && lookup(m.1, other) == lookup(st.1, other) && lookup(m.2, other) == lookup(st.2, other)
            &&& holds_entity(st, id) ==> reads_synced(m, id)
        }),
{
    if let Some(a) = lookup_live(st.0, id) {
        lemma_lookup(st.0, id);
        let b = crate::entities::account::Account {
            sync_status: SyncStatus::Synced,
            base: crate::entities::common::BaseEntity { updated_at: at, ..a.base },
            ..a
        };
        lemma_read_after_update(st.0, b);
    } else if let Some(c) = lookup_live(st.1, id) {
        lemma_lookup(st.1, id);
        let d = crate::entities::category::Category {
            sync_status: SyncStatus::Synced,
            base: crate::entities::common::BaseEntity { updated_at: at, ..c.base },
            ..c
        };
        lemma_read_after_update(st.1, d);
    } else if let Some(t) = lookup(st.2, id) {
        lemma_lookup(st.2, id);
        let u = Transaction {
            sync_status: SyncStatus::Synced,
            base: crate::entities::common::BaseEntity { updated_at: at, ..t.base },
            ..t
        };
        lemma_transaction_update(st.2, u);
    }
}

/// Marking accepted identifiers in turn keeps the identifiers unique, keeps every stored
/// entity stored and every synchronized one synchronized, and leaves each stored entity
/// whose identifier is among the accepted ones synchronized.
pub proof fn lemma_mark_all_synced(st: crate::sync::SyncState, ids: Seq<String>, ats: Seq<Timestamp>, id: EntityId)
    requires
        unique_keys(st.0),
        unique_keys(st.1),
        unique_keys(st.2),
        ats.len() == ids.len(),
    ensures
        ({
            let m = crate::sync::mark_all(st, ids, ats);
            &&& unique_keys(m.0) && unique_keys(m.1) && unique_keys(m.2)
            &&& holds_entity(st, id) ==> holds_entity(m, id)
            &&& reads_synced(st, id) ==> reads_synced(m, id)
            &&& holds_entity(st, id) && (exists|k: int| 0 <= k < ids.len() && crate::ids::uuid_parse(#[trigger] ids[k]@) == Some(id))
                ==> reads_synced(m, id)
            &&& lookup_live(st.0, id) is None ==> lookup(m.0, id) == lookup(st.0, id)
            &&& lookup_live(st.0, id) is None && lookup_live(st.1, id) is None ==> lookup(m.1, id) == lookup(st.1, id)
        }),
    decreases ids.len(),
{
    if ids.len() > 0 {
        let front = ids.drop_last();
        lemma_mark_all_synced(st, front, ats.drop_last(), id);
        let prev = crate::sync::mark_all(st, front, ats.drop_last());
        let m = crate::sync::mark_all(st, ids, ats);
        assert(m == crate::sync::mark_text(prev, ids.last()@, ats.last()));
        if let Some(id2) = crate::ids::uuid_parse(ids.last()@) {
            lemma_mark_step(prev, id2, ats.last());
            if id2 != id {
                assert(lookup(m.0, id) == lookup(prev.0, id));
                assert(lookup(m.1, id) == lookup(prev.1, id));
                assert(lookup(m.2, id) == lookup(prev.2, id));
                if holds_entity(st, id) && (exists|k: int| 0 <= k < ids.len() && crate::ids::uuid_parse(#[trigger] ids[k]@) == Some(id)) {
                    let k = choose|k: int| 0 <= k < ids.len() && crate::ids::uuid_parse(#[trigger] ids[k]@) == Some(id);
                    assert(k != ids.len() - 1);
                    assert(front[k] == ids[k]);
                }
            }
        } else {
            if holds_entity(st, id) && (exists|k: int| 0 <= k < ids.len() && crate::ids::uuid_parse(#[trigger] ids[k]@) == Some(id)) {
                let k = choose|k: int| 0 <= k < ids.len() && crate::ids::uuid_parse(#[trigger] ids[k]@) == Some(id);
                assert(k != ids.len() - 1);
                assert(front[k] == ids[k]);
            }
        }
    }
}

/// A full synchronization that had something to push, in which the server reports no
/// conflict and sends no change, leaves every stored entity whose identifier it accepted reading
/// synchronized.
pub proof fn lemma_full_sync_marks_accepted(
    st: crate::sync::SyncState,
    response: crate::sync::SyncResponse,
    ats: Seq<Timestamp>,
    id: EntityId,
)
    requires
        unique_keys(st.0),
        unique_keys(st.1),
        unique_keys(st.2),
        crate::sync::pending_total(st) > 0,
        ats.len() == response.accepted@.len(),
        response.conflicts@.len() == 0,
        holds_entity(st, id),
        exists|k: int| 0 <= k < response.accepted@.len() && crate::ids::uuid_parse(#[trigger] response.accepted@[k]@) == Some(id),
    ensures
        reads_synced(crate::sync::synced_state(st, response, ats, Seq::<crate::sync::ServerChange>::empty()), id),
{
    lemma_mark_all_synced(st, response.accepted@, ats, id);
    let m = crate::sync::mark_all(st, response.accepted@, ats);
    assert(crate::sync::pushed_state(st, response, ats) == m);
    assert(crate::sync::synced_state(st, response, ats, Seq::<crate::sync::ServerChange>::empty()) == m);
}


/// Marking accepted identifiers in turn keeps the stored transactions in place, under the
/// same identifiers, and makes none of them await synchronization.
proof fn lemma_mark_all_rows(st: crate::sync::SyncState, ids: Seq<String>, ats: Seq<Timestamp>)
    requires
        ats.len() == ids.len(),
    ensures
        ({
            let m = crate::sync::mark_all(st, ids, ats);
            &&& m.2.len() == st.2.len()
            &&& forall|j: int| 0 <= j < st.2.len() ==> (#[trigger] m.2[j]).key() == st.2[j].key()
                && (crate::repositories::transaction_repository::pending(m.2[j])
                    ==> crate::repositories::transaction_repository::pending(st.2[j]))
        }),
    decreases ids.len(),
{
    if ids.len() > 0 {
        lemma_mark_all_rows(st, ids.drop_last(), ats.drop_last());
        let prev = crate::sync::mark_all(st, ids.drop_last(), ats.drop_last());
        let m = crate::sync::mark_all(st, ids, ats);
        assert(m == crate::sync::mark_text(prev, ids.last()@, ats.last()));
        assert forall|j: int| 0 <= j < st.2.len() implies (#[trigger] m.2[j]).key() == prev.2[j].key()
            && (crate::repositories::transaction_repository::pending(m.2[j])
                ==> crate::repositories::transaction_repository::pending(prev.2[j])) by {
            assert(prev.2[j].key() == st.2[j].key());
        }
    }
}

/// A full synchronization that had something to push, in which the server accepts every
/// pending transaction (each under an identifier that no live account or category has),
/// reports no conflict and sends no change, leaves no transaction awaiting synchronization.
pub proof fn lemma_full_sync_clears_pending(
    st: crate::sync::SyncState,
    response: crate::sync::SyncResponse,
    ats: Seq<Timestamp>,
)
    requires
        unique_keys(st.0),
        unique_keys(st.1),
        unique_keys(st.2),
        crate::sync::pending_total(st) > 0,
        ats.len() == response.accepted@.len(),
        response.conflicts@.len() == 0,
        forall|j: int| 0 <= j < st.2.len() && crate::repositories::transaction_repository::pending(#[trigger] st.2[j]) ==> {
            &&& lookup_live(st.0, st.2[j].key()) is None
            &&& lookup_live(st.1, st.2[j].key()) is None
            &&& exists|k: int| 0 <= k < response.accepted@.len()
                && crate::ids::uuid_parse(#[trigger] response.accepted@[k]@) == Some(st.2[j].key())
        },
    ensures
        crate::sync::synced_state(st, response, ats, Seq::<crate::sync::ServerChange>::empty()).2.filter(
            |t: Transaction| crate::repositories::transaction_repository::pending(t),
        ).len() == 0,
{
    let ids = response.accepted@;
    let m = crate::sync::mark_all(st, ids, ats);
    assert(crate::sync::synced_state(st, response, ats, Seq::<crate::sync::ServerChange>::empty()) == m);
    lemma_mark_all_rows(st, ids, ats);
    lemma_mark_all_synced(st, ids, ats, 0);
    let p = |t: Transaction| crate::repositories::transaction_repository::pending(t);
    assert forall|j: int| 0 <= j < m.2.len() implies !p(#[trigger] m.2[j]) by {
        if p(m.2[j]) {
            let id = st.2[j].key();
            lemma_lookup(st.2, id);
            lemma_mark_all_synced(st, ids, ats, id);
            assert(holds_entity(st, id));
            lemma_lookup(m.2, id);
            assert(lookup(m.2, id) == Some(m.2[j]));
        }
    }
    crate::queries::lemma_filter_members(m.2, p);
    if m.2.filter(p).len() > 0 {
        let x = m.2.filter(p)[0];
        let j = choose|j: int| 0 <= j < m.2.len() && m.2[j] == x;
    }
}


/// Sorting keeps every element of the input.
proof fn lemma_sorted_keeps<T>(s: Seq<T>, before: spec_fn(T, T) -> bool, x: T)
    requires
        s.contains(x),
    ensures
        stable_sort(s, before).contains(x),
    decreases s.len(),
{
    let r = stable_sort(s.drop_last(), before);
    let p = slot(r, s.last(), before);
    lemma_slot_bounds(r, s.last(), before);
    let sorted = stable_sort(s, before);
    assert(sorted == r.insert(p, s.last()));
    if s.last() == x {
        assert(sorted[p] == x);
    } else {
        let j = choose|j: int| 0 <= j < s.len() && s[j] == x;
        assert(j < s.len() - 1);
        assert(s.drop_last()[j] == x);
        lemma_sorted_keeps(s.drop_last(), before, x);
        let k = choose|k: int| 0 <= k < r.len() && r[k] == x;
        if k < p {
            assert(sorted[k] == x);
        } else {
            assert(sorted[k + 1] == x);
        }
    }
}

/// Deleting a tag changes a transaction's tags by taking that tag off and nothing else:
/// after the deletion, a tag is listed for a transaction exactly when it was listed before
/// and is not the deleted one.
pub proof fn lemma_deleted_tag_listing(
    tags: Seq<crate::entities::tag::Tag>,
    links: Seq<crate::entities::tag::TransactionTag>,
    tag_id: EntityId,
    now: Timestamp,
    transaction_id: EntityId,
)
    ensures
        ({
            let kept = links.filter(|l: crate::entities::tag::TransactionTag| l.tag_id != tag_id);
            let before = crate::repositories::tag_repository::tags_of_transaction(tags, links, transaction_id);
            let after = crate::repositories::tag_repository::tags_of_transaction(rows_retired(tags, tag_id, now), kept, transaction_id);
            forall|t: crate::entities::tag::Tag| #[trigger] after.contains(t) <==> before.contains(t) && t.key() != tag_id
        }),
{
    let lk = |l: crate::entities::tag::TransactionTag| l.tag_id != tag_id;
    let kept = links.filter(lk);
    let retired = rows_retired(tags, tag_id, now);
    let order = crate::queries::relation::<crate::entities::tag::Tag, crate::repositories::tag_repository::ByName>();
    let p0 = |t: crate::entities::tag::Tag| !t.retired() && crate::repositories::tag_repository::linked(links, transaction_id, t.key());
    let p1 = |t: crate::entities::tag::Tag| !t.retired() && crate::repositories::tag_repository::linked(kept, transaction_id, t.key());
    let c0 = tags.filter(p0);
    let c1 = retired.filter(p1);
    let before = crate::repositories::tag_repository::tags_of_transaction(tags, links, transaction_id);
    let after = crate::repositories::tag_repository::tags_of_transaction(retired, kept, transaction_id);
    crate::queries::lemma_filter_members(links, lk);
    crate::queries::lemma_filter_members(tags, p0);
    crate::queries::lemma_filter_members(retired, p1);
    assert forall|t: crate::entities::tag::Tag| #[trigger] after.contains(t) <==> before.contains(t) && t.key() != tag_id by {
        if after.contains(t) {
            lemma_sorted_members(c1, order, t);
            let m = choose|m: int| 0 <= m < c1.len() && c1[m] == t;
            let link = crate::entities::tag::TransactionTag { transaction_id, tag_id: t.key() };
            assert(kept.contains(link));
            let j = choose|j: int| 0 <= j < kept.len() && kept[j] == link;
            assert(links.contains(kept[j]));
            let i = choose|i: int| 0 <= i < retired.len() && retired[i] == t;
            assert(tags[i].key() != tag_id ==> retired[i] == tags[i]);
            if tags[i].key() == tag_id {
                crate::records::Retirable::lemma_retired_key(tags[i], now);
                assert(false);
            }
            assert(tags.contains(t));
            let a = choose|a: int| 0 <= a < tags.len() && tags[a] == t;
            tags.lemma_filter_contains(p0, a);
            lemma_sorted_keeps(c0, order, t);
        }
        if before.contains(t) && t.key() != tag_id {
            lemma_sorted_members(c0, order, t);
            let m = choose|m: int| 0 <= m < c0.len() && c0[m] == t;
            let link = crate::entities::tag::TransactionTag { transaction_id, tag_id: t.key() };
            let j = choose|j: int| 0 <= j < links.len() && links[j] == link;
            links.lemma_filter_contains(lk, j);
            let i = choose|i: int| 0 <= i < tags.len() && tags[i] == t;
            assert(retired[i] == t);
            retired.lemma_filter_contains(p1, i);
            lemma_sorted_keeps(c1, order, t);
        }
    }
}

/// A user override decides the conversion of its pair: once it is saved, a conversion that
/// uses the best rate for the pair converts at the override's rate, with the override as
/// its source.
pub proof fn lemma_conversion_after_override(
    rows: Seq<crate::entities::exchange_rate::ExchangeRate>,
    x: crate::entities::exchange_rate::ExchangeRate,
    c: crate::entities::exchange_rate::ConversionResult,
)
    requires
        x.source == crate::entities::exchange_rate::RateSource::UserOverride,
        crate::repositories::exchange_rate_repository::is_best_rate(
            crate::repositories::exchange_rate_repository::rows_saved(rows, x),
            x.from_currency@,
            x.to_currency@,
            crate::entities::exchange_rate::ExchangeRate {
                from_currency: c.from_currency,
                to_currency: c.to_currency,
                rate: c.rate,
                source: c.rate_source,
                fetched_at: c.rate_fetched_at,
            },
        ),
    ensures
        c.rate == x.rate,
        c.rate_source == crate::entities::exchange_rate::RateSource::UserOverride,
{
    lemma_override_decides(rows, x, crate::entities::exchange_rate::ExchangeRate {
        from_currency: c.from_currency,
        to_currency: c.to_currency,
        rate: c.rate,
        source: c.rate_source,
        fetched_at: c.rate_fetched_at,
    });
}

/// Cached rates decide the conversion of their pair over bundled ones: after a batch of
/// cached rates is saved over rates that hold no user override for a pair, a conversion
/// that uses the best rate for the pair converts at the batch's last rate for it, with a
/// cached source.
pub proof fn lemma_conversion_after_cached_update(
    rows: Seq<crate::entities::exchange_rate::ExchangeRate>,
    batch: Seq<crate::entities::exchange_rate::ExchangeRate>,
    i: int,
    c: crate::entities::exchange_rate::ConversionResult,
)
    requires
        crate::repositories::exchange_rate_repository::unique_slots(rows),
        0 <= i < batch.len(),
        forall|j: int| 0 <= j < batch.len() ==> (#[trigger] batch[j]).source == crate::entities::exchange_rate::RateSource::Cached,
        forall|j: int| i < j < batch.len() ==> !crate::repositories::exchange_rate_repository::same_slot(#[trigger] batch[j], batch[i]),
        forall|k: int| 0 <= k < rows.len() && (#[trigger] rows[k]).from_currency@ == batch[i].from_currency@
            && rows[k].to_currency@ == batch[i].to_currency@ ==> rows[k].source != crate::entities::exchange_rate::RateSource::UserOverride,
        crate::repositories::exchange_rate_repository::is_best_rate(
            crate::repositories::exchange_rate_repository::rows_saved_all(rows, batch),
            batch[i].from_currency@,
            batch[i].to_currency@,
            crate::entities::exchange_rate::ExchangeRate {
                from_currency: c.from_currency,
                to_currency: c.to_currency,
                rate: c.rate,
                source: c.rate_source,
                fetched_at: c.rate_fetched_at,
            },
        ),
    ensures
        c.rate == batch[i].rate,
        c.rate_source == crate::entities::exchange_rate::RateSource::Cached,
{
    lemma_cached_update_wins(rows, batch, i, crate::entities::exchange_rate::ExchangeRate {
        from_currency: c.from_currency,
        to_currency: c.to_currency,
        rate: c.rate,
        source: c.rate_source,
        fetched_at: c.rate_fetched_at,
    });
}

/// A full synchronization that had something to push, in which the server accepts every
/// pending entity, reports no conflict and sends no change: every stored entity the server
/// accepted reads synchronized, and where each pending transaction was accepted under an
/// identifier that no live account or category has, no transaction awaits synchronization.
pub proof fn lemma_full_sync_flow(
    st: crate::sync::SyncState,
    response: crate::sync::SyncResponse,
    ats: Seq<Timestamp>,
)
    requires
        unique_keys(st.0),
        unique_keys(st.1),
        unique_keys(st.2),
        crate::sync::pending_total(st) > 0,
        ats.len() == response.accepted@.len(),
        response.conflicts@.len() == 0,
    ensures
        ({
            let after = crate::sync::synced_state(st, response, ats, Seq::<crate::sync::ServerChange>::empty());
            &&& forall|id: EntityId| #[trigger] holds_entity(st, id) && (exists|k: int| 0 <= k < response.accepted@.len()
                && crate::ids::uuid_parse(#[trigger] response.accepted@[k]@) == Some(id)) ==> reads_synced(after, id)
            &&& (forall|j: int| 0 <= j < st.2.len() && crate::repositories::transaction_repository::pending(#[trigger] st.2[j]) ==> {
                &&& lookup_live(st.0, st.2[j].key()) is None
                &&& lookup_live(st.1, st.2[j].key()) is None
                &&& exists|k: int| 0 <= k < response.accepted@.len()
                    && crate::ids::uuid_parse(#[trigger] response.accepted@[k]@) == Some(st.2[j].key())
            }) ==> after.2.filter(|t: Transaction| crate::repositories::transaction_repository::pending(t)).len() == 0
        }),
{
    assert forall|id: EntityId| #[trigger] holds_entity(st, id) && (exists|k: int| 0 <= k < response.accepted@.len()
        && crate::ids::uuid_parse(#[trigger] response.accepted@[k]@) == Some(id))
        implies reads_synced(crate::sync::synced_state(st, response, ats, Seq::<crate::sync::ServerChange>::empty()), id) by {
        lemma_full_sync_marks_accepted(st, response, ats, id);
    }
    if forall|j: int| 0 <= j < st.2.len() && crate::repositories::transaction_repository::pending(#[trigger] st.2[j]) ==> {
        &&& lookup_live(st.0, st.2[j].key()) is None
        &&& lookup_live(st.1, st.2[j].key()) is None
        &&& exists|k: int| 0 <= k < response.accepted@.len()
            && crate::ids::uuid_parse(#[trigger] response.accepted@[k]@) == Some(st.2[j].key())
    } {
        lemma_full_sync_clears_pending(st, response, ats);
    }
}

/// A transfer moves its amount between the two accounts: after it, the source account's
/// balance is lower by the amount, the destination's higher by it, and every other
/// account's balance is unchanged.
pub proof fn lemma_transfer_moves_amount(
    rows: Seq<Transaction>,
    from_account_id: EntityId,
    to_account_id: EntityId,
    category_id: EntityId,
    amount: i64,
    description: Seq<char>,
    date: Timestamp,
    out: Transaction,
    inc: Transaction,
    a: EntityId,
)
    requires
        from_account_id != to_account_id,
        crate::use_cases::transaction_use_cases::fresh_transaction(
            out, from_account_id, category_id, amount, TransactionType::Transfer, description, date),
        crate::use_cases::transaction_use_cases::fresh_transaction(
            inc, to_account_id, category_id, amount, TransactionType::Income,
            crate::use_cases::transaction_use_cases::transfer_description(description), date),
    ensures
        balance_of(rows.push(out).push(inc), from_account_id) == balance_of(rows, from_account_id) - amount,
        balance_of(rows.push(out).push(inc), to_account_id) == balance_of(rows, to_account_id) + amount,
        a != from_account_id && a != to_account_id ==> balance_of(rows.push(out).push(inc), a) == balance_of(rows, a),
{
    lemma_transfer_zero_sum(rows, out, inc, a);
    lemma_transfer_zero_sum(rows, out, inc, from_account_id);
    lemma_transfer_zero_sum(rows, out, inc, to_account_id);
}


/// A transaction that a grouping does not count changes none of its group sums or counts.
proof fn lemma_push_uncounted<G: crate::repositories::transaction_repository::Grouping>(
    rows: Seq<Transaction>,
    t: Transaction,
    g: G,
)
    requires
        !g.includes(t),
    ensures
        forall|k: u128| #[trigger] sum_by(rows.push(t), crate::repositories::transaction_repository::first_in_group(g, k))
            == sum_by(rows, crate::repositories::transaction_repository::first_in_group(g, k)),
        forall|k: u128| #[trigger] sum_by(rows.push(t), crate::repositories::transaction_repository::second_in_group(g, k))
            == sum_by(rows, crate::repositories::transaction_repository::second_in_group(g, k)),
        forall|k: u128| #[trigger] crate::queries::count_by(rows.push(t), crate::repositories::transaction_repository::in_group(g, k))
            == crate::queries::count_by(rows, crate::repositories::transaction_repository::in_group(g, k)),
        forall|k: int| 0 <= k < rows.push(t).len() && g.includes(#[trigger] rows.push(t)[k]) ==> k < rows.len() && rows.push(t)[k] == rows[k],
{
    assert(rows.push(t).drop_last() =~= rows);
}

/// Storing a transaction that a grouping does not count leaves the grouping's description
/// of the stored transactions, and whether its totals fit, unchanged.
proof fn lemma_push_uncounted_groups<G: crate::repositories::transaction_repository::Grouping>(
    rows: Seq<Transaction>,
    b: Seq<crate::repositories::transaction_repository::Bucket>,
    t: Transaction,
    g: G,
)
    requires
        !g.includes(t),
    ensures
        crate::repositories::transaction_repository::groups_of(b, rows.push(t), g)
            == crate::repositories::transaction_repository::groups_of(b, rows, g),
        crate::repositories::category_spending::groups_ranked(b, rows.push(t), g)
            == crate::repositories::category_spending::groups_ranked(b, rows, g),
        crate::repositories::transaction_statistics::group_totals_fit(rows.push(t), g)
            == crate::repositories::transaction_statistics::group_totals_fit(rows, g),
{
    let r2 = rows.push(t);
    lemma_push_uncounted(rows, t, g);
    assert forall|k: int| 0 <= k < rows.len() implies #[trigger] r2[k] == rows[k] by {}
    assert forall|k: u128| #[trigger] sum_by(r2, crate::repositories::transaction_repository::first_in_group(g, k))
        == sum_by(rows, crate::repositories::transaction_repository::first_in_group(g, k))
        && sum_by(r2, crate::repositories::transaction_repository::second_in_group(g, k))
        == sum_by(rows, crate::repositories::transaction_repository::second_in_group(g, k)) by {}
    if crate::repositories::transaction_statistics::group_totals_fit(rows, g) {
        assert forall|k: u128| {
            &&& crate::repositories::transaction_repository::fits_i64(#[trigger] sum_by(r2, crate::repositories::transaction_repository::first_in_group(g, k)))
            &&& crate::repositories::transaction_repository::fits_i64(sum_by(r2, crate::repositories::transaction_repository::second_in_group(g, k)))
            &&& crate::repositories::transaction_repository::fits_i64(sum_by(r2, crate::repositories::transaction_repository::first_in_group(g, k))
                - sum_by(r2, crate::repositories::transaction_repository::second_in_group(g, k)))
        } by {
            assert(sum_by(rows, crate::repositories::transaction_repository::first_in_group(g, k))
                == sum_by(r2, crate::repositories::transaction_repository::first_in_group(g, k)));
        }
    }
    if crate::repositories::transaction_statistics::group_totals_fit(r2, g) {
        assert forall|k: u128| {
            &&& crate::repositories::transaction_repository::fits_i64(#[trigger] sum_by(rows, crate::repositories::transaction_repository::first_in_group(g, k)))
            &&& crate::repositories::transaction_repository::fits_i64(sum_by(rows, crate::repositories::transaction_repository::second_in_group(g, k)))
            &&& crate::repositories::transaction_repository::fits_i64(sum_by(rows, crate::repositories::transaction_repository::first_in_group(g, k))
                - sum_by(rows, crate::repositories::transaction_repository::second_in_group(g, k)))
        } by {
            assert(sum_by(rows, crate::repositories::transaction_repository::first_in_group(g, k))
                == sum_by(r2, crate::repositories::transaction_repository::first_in_group(g, k)));
        }
    }
    let c3_new = forall|k: int| 0 <= k < r2.len() && g.includes(r2[k]) ==>
        exists|i: int| 0 <= i < b.len() && #[trigger] b[i].key == g.group_key(#[trigger] r2[k]);
    let c3_old = forall|k: int| 0 <= k < rows.len() && g.includes(rows[k]) ==>
        exists|i: int| 0 <= i < b.len() && #[trigger] b[i].key == g.group_key(#[trigger] rows[k]);
    if c3_old {
        assert forall|k: int| 0 <= k < r2.len() && g.includes(r2[k]) implies
            exists|i: int| 0 <= i < b.len() && #[trigger] b[i].key == g.group_key(#[trigger] r2[k]) by {
            assert(k < rows.len());
            assert(r2[k] == rows[k]);
        }
    }
    if c3_new {
        assert forall|k: int| 0 <= k < rows.len() && g.includes(rows[k]) implies
            exists|i: int| 0 <= i < b.len() && #[trigger] b[i].key == g.group_key(#[trigger] rows[k]) by {
            assert(r2[k] == rows[k]);
        }
    }
    assert(c3_new == c3_old);
    let c2_new = forall|i: int| 0 <= i < b.len() ==> {
        &&& #[trigger] b[i].first == sum_by(r2, crate::repositories::transaction_repository::first_in_group(g, b[i].key))
        &&& b[i].second == sum_by(r2, crate::repositories::transaction_repository::second_in_group(g, b[i].key))
        &&& b[i].count == crate::queries::count_by(r2, crate::repositories::transaction_repository::in_group(g, b[i].key))
        &&& b[i].count > 0
    };
    let c2_old = forall|i: int| 0 <= i < b.len() ==> {
        &&& #[trigger] b[i].first == sum_by(rows, crate::repositories::transaction_repository::first_in_group(g, b[i].key))
        &&& b[i].second == sum_by(rows, crate::repositories::transaction_repository::second_in_group(g, b[i].key))
        &&& b[i].count == crate::queries::count_by(rows, crate::repositories::transaction_repository::in_group(g, b[i].key))
        &&& b[i].count > 0
    };
    assert(c2_new == c2_old) by {
        assert forall|i: int| 0 <= i < b.len() implies (sum_by(r2, crate::repositories::transaction_repository::first_in_group(g, #[trigger] b[i].key))
            == sum_by(rows, crate::repositories::transaction_repository::first_in_group(g, b[i].key))
            && sum_by(r2, crate::repositories::transaction_repository::second_in_group(g, b[i].key))
            == sum_by(rows, crate::repositories::transaction_repository::second_in_group(g, b[i].key))
            && crate::queries::count_by(r2, crate::repositories::transaction_repository::in_group(g, b[i].key))
            == crate::queries::count_by(rows, crate::repositories::transaction_repository::in_group(g, b[i].key))) by {
            let k = b[i].key;
            assert(sum_by(r2, crate::repositories::transaction_repository::first_in_group(g, k))
                == sum_by(rows, crate::repositories::transaction_repository::first_in_group(g, k)));
            assert(crate::queries::count_by(r2, crate::repositories::transaction_repository::in_group(g, k))
                == crate::queries::count_by(rows, crate::repositories::transaction_repository::in_group(g, k)));
        }
    }
    if crate::repositories::transaction_repository::groups_of(b, rows, g) {
        assert(c2_old && c3_old);
        assert(crate::repositories::transaction_repository::groups_of(b, r2, g));
    }
    if crate::repositories::transaction_repository::groups_of(b, r2, g) {
        assert(c2_new && c3_new);
        assert(crate::repositories::transaction_repository::groups_of(b, rows, g));
    }
}

/// Monthly trends count standalone transactions only: storing one more transaction that is
/// paired with another (either side of a transfer) leaves the income, expenses and count of
/// every month as they were, so the same trends describe the stored transactions before
/// and after, and they fit in `i64` after exactly when they did before.
pub proof fn lemma_trends_ignore_paired(
    rows: Seq<Transaction>,
    b: Seq<crate::repositories::transaction_repository::Bucket>,
    account_id: EntityId,
    from: Timestamp,
    to: Timestamp,
    t: Transaction,
)
    requires
        t.linked_transaction_id is Some,
    ensures
        ({
            let g = crate::repositories::transaction_statistics::ByMonth { account_id, from, to };
            &&& crate::repositories::transaction_repository::groups_of(b, rows.push(t), g)
                == crate::repositories::transaction_repository::groups_of(b, rows, g)
            &&& crate::repositories::transaction_statistics::group_totals_fit(rows.push(t), g)
                == crate::repositories::transaction_statistics::group_totals_fit(rows, g)
        }),
{
    let g = crate::repositories::transaction_statistics::ByMonth { account_id, from, to };
    lemma_push_uncounted_groups(rows, b, t, g);
}

/// Spending by category counts expenses only: storing one more transaction that is not an
/// expense (an income, such as a refund, or a transfer) leaves every category's total and
/// count as they were, so the same ranked list describes the stored transactions before
/// and after.
pub proof fn lemma_spending_ignores_non_expenses(
    rows: Seq<Transaction>,
    b: Seq<crate::repositories::transaction_repository::Bucket>,
    account_id: EntityId,
    from: Timestamp,
    to: Timestamp,
    categories: &crate::repositories::category_repository::InMemoryCategoryRepository,
    t: Transaction,
)
    requires
        t.transaction_type != TransactionType::Expense,
    ensures
        ({
            let g = crate::repositories::category_spending::ByCategory { account_id, from, to, categories };
            &&& crate::repositories::category_spending::groups_ranked(b, rows.push(t), g)
                == crate::repositories::category_spending::groups_ranked(b, rows, g)
            &&& crate::repositories::transaction_statistics::group_totals_fit(rows.push(t), g)
                == crate::repositories::transaction_statistics::group_totals_fit(rows, g)
        }),
{
    let g = crate::repositories::category_spending::ByCategory { account_id, from, to, categories };
    lemma_push_uncounted_groups(rows, b, t, g);
}

/// Every transaction a search returns is a stored, live transaction of the searched
/// account that meets each criterion the filter sets: its category, its type, the amount
/// bounds, the date bounds and the description text.
pub proof fn lemma_search_results_meet_filter(
    rows: Seq<Transaction>,
    f: crate::entities::search::TransactionSearchFilter,
)
    ensures
        forall|i: int| 0 <= i < crate::repositories::transaction_repository::search_results(rows, f).len() ==> {
            let t = #[trigger] crate::repositories::transaction_repository::search_results(rows, f)[i];
            &&& rows.contains(t)
            &&& t.account_id == f.account_id
            &&& !t.deleted()
            &&& (f.category_id matches Some(c) ==> t.category_id == c)
            &&& (f.transaction_type matches Some(k) ==> t.transaction_type == k)
            &&& (f.min_amount matches Some(m) ==> t.amount >= m)
            &&& (f.max_amount matches Some(m) ==> t.amount <= m)
            &&& (f.date_from matches Some(d) ==> t.date.unix() >= d.unix())
            &&& (f.date_to matches Some(d) ==> t.date.unix() <= d.unix())
            &&& (f.query matches Some(q) ==> crate::text::like_match(crate::text::containing_pattern(q@), t.description@))
        },
{
    let p = crate::repositories::transaction_repository::selects(f);
    let kept = rows.filter(p);
    let res = crate::repositories::transaction_repository::search_results(rows, f);
    crate::queries::lemma_filter_members(rows, p);
    assert forall|i: int| 0 <= i < res.len() implies rows.contains(#[trigger] res[i]) && p(res[i]) by {
        assert(res.contains(res[i]));
        lemma_sorted_members(kept, crate::repositories::transaction_repository::by_date_desc(), res[i]);
        let m = choose|m: int| 0 <= m < kept.len() && kept[m] == res[i];
    }
}

/// Resolving a server change to a stored transaction by last write wins: when the server's
/// version is newer and its data reads as a transaction, the stored transaction takes the
/// server's amount, type, description, category, date and version and is synchronized,
/// keeping its identity and account; otherwise it keeps its data and awaits
/// synchronization again. Accounts, categories and other transactions are untouched.
pub proof fn lemma_resolve_transaction_change(st: crate::sync::SyncState, change: crate::sync::ServerChange, id: EntityId)
    requires
        unique_keys(st.2),
        crate::ids::uuid_parse(change.entity_id@) == Some(id),
        change.entity_type@ == "transaction"@,
        lookup(st.2, id) is Some,
    ensures
        ({
            let local = lookup(st.2, id)->Some_0;
            let after = crate::sync::resolve_state(st, change);
            &&& after.0 == st.0 && after.1 == st.1
            &&& forall|other: EntityId| other != id ==> #[trigger] lookup(after.2, other) == lookup(st.2, other)
            &&& change.version > local.version ==> (change.data.transaction matches Some(s) ==> lookup(after.2, id) matches Some(n)
                && n.amount == s.amount && n.transaction_type == s.transaction_type && n.description == s.description
                && n.category_id == s.category_id && n.date == s.date && n.version == change.version
                && n.sync_status == SyncStatus::Synced && n.account_id == local.account_id && n.base.id == id)
            &&& change.version <= local.version ==> lookup(after.2, id)
                == Some(Transaction { sync_status: SyncStatus::Pending, ..local })
        }),
{
    let local = lookup(st.2, id)->Some_0;
    lemma_lookup(st.2, id);
    if let Some(n) = crate::sync::lww_transaction(local, change) {
        lemma_transaction_update(st.2, n);
    }
}


/// Budget periods and recurrences step by the calendar: a week is seven days, a day one
/// and a fortnight fourteen, and a month, a quarter and a year are one, three and twelve
/// calendar months.
pub proof fn lemma_calendar_steps(start: i64)
    ensures
        crate::entities::budget::period_end(start, crate::entities::budget::BudgetPeriod::Weekly)
            == crate::time::days_after(start, 7),
        crate::entities::budget::period_end(start, crate::entities::budget::BudgetPeriod::Monthly)
            == crate::time::utc_plus_months(start, 1),
        crate::entities::budget::period_end(start, crate::entities::budget::BudgetPeriod::Quarterly)
            == crate::time::utc_plus_months(start, 3),
        crate::entities::budget::period_end(start, crate::entities::budget::BudgetPeriod::Yearly)
            == crate::time::utc_plus_months(start, 12),
        crate::entities::recurring_transaction::occurrence_after(start, crate::entities::recurring_transaction::RecurrenceFrequency::Daily)
            == crate::time::days_after(start, 1),
        crate::entities::recurring_transaction::occurrence_after(start, crate::entities::recurring_transaction::RecurrenceFrequency::Weekly)
            == crate::time::days_after(start, 7),
        crate::entities::recurring_transaction::occurrence_after(start, crate::entities::recurring_transaction::RecurrenceFrequency::BiWeekly)
            == crate::time::days_after(start, 14),
        crate::entities::recurring_transaction::occurrence_after(start, crate::entities::recurring_transaction::RecurrenceFrequency::Monthly)
            == crate::time::utc_plus_months(start, 1),
        crate::entities::recurring_transaction::occurrence_after(start, crate::entities::recurring_transaction::RecurrenceFrequency::Quarterly)
            == crate::time::utc_plus_months(start, 3),
        crate::entities::recurring_transaction::occurrence_after(start, crate::entities::recurring_transaction::RecurrenceFrequency::Yearly)
            == crate::time::utc_plus_months(start, 12),
{
}

/// One more stored transaction adds its amounts to the group it is counted in, if any.
proof fn lemma_push_step<G: crate::repositories::transaction_repository::Grouping>(
    rows: Seq<Transaction>,
    t: Transaction,
    g: G,
    k: u128,
)
    ensures
        sum_by(rows.push(t), crate::repositories::transaction_repository::first_in_group(g, k))
            == sum_by(rows, crate::repositories::transaction_repository::first_in_group(g, k))
            + (if g.includes(t) && g.group_key(t) == k { g.first(t) } else { 0 }),
        sum_by(rows.push(t), crate::repositories::transaction_repository::second_in_group(g, k))
            == sum_by(rows, crate::repositories::transaction_repository::second_in_group(g, k))
            + (if g.includes(t) && g.group_key(t) == k { g.second(t) } else { 0 }),
        crate::queries::count_by(rows.push(t), crate::repositories::transaction_repository::in_group(g, k))
            == crate::queries::count_by(rows, crate::repositories::transaction_repository::in_group(g, k))
            + (if g.includes(t) && g.group_key(t) == k { 1int } else { 0int }),
{
    assert(rows.push(t).drop_last() =~= rows);
}

/// How one more stored transaction changes the monthly trends of an account over a period:
/// a live transaction of the account, dated within the period and paired with no other,
/// adds its amount to its calendar month's income when it is an income and to that
/// month's expenses when it is an expense, and one to that month's count; any other
/// transaction, and any other month, changes nothing.
pub proof fn lemma_trends_step(
    rows: Seq<Transaction>,
    account_id: EntityId,
    from: Timestamp,
    to: Timestamp,
    t: Transaction,
    k: u128,
)
    ensures
        ({
            let g = crate::repositories::transaction_statistics::ByMonth { account_id, from, to };
            let counted = t.account_id == account_id && t.base.deleted_at is None && from.unix() <= t.date.unix()
                && t.date.unix() <= to.unix() && t.linked_transaction_id is None;
            let here = counted && k == crate::repositories::transaction_statistics::month_key(
                crate::time::utc_year(t.date.unix()) as int,
                crate::time::utc_month(t.date.unix()) as int,
            );
            &&& sum_by(rows.push(t), crate::repositories::transaction_repository::first_in_group(g, k))
                == sum_by(rows, crate::repositories::transaction_repository::first_in_group(g, k))
                + (if here && t.transaction_type == TransactionType::Income { t.amount as int } else { 0 })
            &&& sum_by(rows.push(t), crate::repositories::transaction_repository::second_in_group(g, k))
                == sum_by(rows, crate::repositories::transaction_repository::second_in_group(g, k))
                + (if here && t.transaction_type == TransactionType::Expense { t.amount as int } else { 0 })
            &&& crate::queries::count_by(rows.push(t), crate::repositories::transaction_repository::in_group(g, k))
                == crate::queries::count_by(rows, crate::repositories::transaction_repository::in_group(g, k))
                + (if here { 1int } else { 0int })
        }),
{
    let g = crate::repositories::transaction_statistics::ByMonth { account_id, from, to };
    lemma_push_step(rows, t, g, k);
}

/// How one more stored transaction changes the spending by category of an account over a
/// period: a live expense of the account, dated within the period, whose category is
/// stored and live, adds its amount and one to its category's total and count; any other
/// transaction, and any other category, changes nothing.
pub proof fn lemma_spending_step(
    rows: Seq<Transaction>,
    account_id: EntityId,
    from: Timestamp,
    to: Timestamp,
    categories: &crate::repositories::category_repository::InMemoryCategoryRepository,
    t: Transaction,
    k: u128,
)
    ensures
        ({
            let g = crate::repositories::category_spending::ByCategory { account_id, from, to, categories };
            let here = t.account_id == account_id && t.base.deleted_at is None && from.unix() <= t.date.unix()
                && t.date.unix() <= to.unix() && t.transaction_type == TransactionType::Expense
                && lookup_live(categories@, t.category_id) is Some && k == t.category_id;
            &&& sum_by(rows.push(t), crate::repositories::transaction_repository::first_in_group(g, k))
                == sum_by(rows, crate::repositories::transaction_repository::first_in_group(g, k))
                + (if here { t.amount as int } else { 0 })
            &&& crate::queries::count_by(rows.push(t), crate::repositories::transaction_repository::in_group(g, k))
                == crate::queries::count_by(rows, crate::repositories::transaction_repository::in_group(g, k))
                + (if here { 1int } else { 0int })
        }),
{
    let g = crate::repositories::category_spending::ByCategory { account_id, from, to, categories };
    lemma_push_step(rows, t, g, k);
}


/// How one more stored transaction changes the daily spending of an account over a
/// period: a live expense of the account, dated within the period and paired with no other,
/// adds its amount and one to the total and count of its UTC day; any other transaction,
/// and any other day, changes nothing.
pub proof fn lemma_daily_spending_step(
    rows: Seq<Transaction>,
    account_id: EntityId,
    from: Timestamp,
    to: Timestamp,
    t: Transaction,
    k: u128,
)
    ensures
        ({
            let g = crate::repositories::transaction_statistics::ByDay { account_id, from, to };
            let here = t.account_id == account_id && t.base.deleted_at is None && from.unix() <= t.date.unix()
                && t.date.unix() <= to.unix() && t.transaction_type == TransactionType::Expense
                && t.linked_transaction_id is None
                && k == crate::repositories::transaction_statistics::day_key(t.date.unix() as int);
            &&& sum_by(rows.push(t), crate::repositories::transaction_repository::first_in_group(g, k))
                == sum_by(rows, crate::repositories::transaction_repository::first_in_group(g, k))
                + (if here { t.amount as int } else { 0 })
            &&& crate::queries::count_by(rows.push(t), crate::repositories::transaction_repository::in_group(g, k))
                == crate::queries::count_by(rows, crate::repositories::transaction_repository::in_group(g, k))
                + (if here { 1int } else { 0int })
        }),
{
    let g = crate::repositories::transaction_statistics::ByDay { account_id, from, to };
    lemma_push_step(rows, t, g, k);
}

/// How one more stored transaction changes the income, expense and transfer totals of an
/// account over a period: a live transaction of the account, dated within the period and
/// paired with no other, adds its amount to the total of its own type; any other
/// transaction changes no total.
pub proof fn lemma_income_summary_step(
    rows: Seq<Transaction>,
    account_id: EntityId,
    from: Timestamp,
    to: Timestamp,
    kind: TransactionType,
    t: Transaction,
)
    ensures
        crate::repositories::transaction_statistics::unlinked_total(rows.push(t), account_id, from, to, kind)
            == crate::repositories::transaction_statistics::unlinked_total(rows, account_id, from, to, kind)
            + (if t.account_id == account_id && t.base.deleted_at is None && from.unix() <= t.date.unix()
                && t.date.unix() <= to.unix() && t.transaction_type == kind && t.linked_transaction_id is None {
                t.amount as int
            } else {
                0
            }),
{
    lemma_sum_push(rows, t, weight_of(crate::repositories::transaction_statistics::PeriodTotal {
        account_id, from, to, kind, category_id: None, unlinked_only: true,
    }));
}

/// How one more stored transaction changes what a budget has spent over a period: a live
/// expense of the account dated within the period, of the budget's category when it has
/// one, adds its amount; any other transaction changes nothing.
pub proof fn lemma_budget_spent_step(
    rows: Seq<Transaction>,
    account_id: EntityId,
    category_id: Option<EntityId>,
    from: Timestamp,
    to: Timestamp,
    t: Transaction,
)
    ensures
        crate::repositories::transaction_statistics::spent_total(rows.push(t), account_id, category_id, from, to)
            == crate::repositories::transaction_statistics::spent_total(rows, account_id, category_id, from, to)
            + (if t.account_id == account_id && t.base.deleted_at is None && from.unix() <= t.date.unix()
                && t.date.unix() <= to.unix() && t.transaction_type == TransactionType::Expense
                && (category_id matches Some(c) ==> t.category_id == c) {
                t.amount as int
            } else {
                0
            }),
{
    lemma_sum_push(rows, t, weight_of(crate::repositories::transaction_statistics::PeriodTotal {
        account_id, from, to, kind: TransactionType::Expense, category_id, unlinked_only: false,
    }));
}

/// How one more stored transaction changes an account's balance: a live income of the
/// account adds its amount, any other live transaction of the account (an expense or an
/// outgoing transfer) takes its amount off, and anything else changes nothing.
pub proof fn lemma_balance_step(rows: Seq<Transaction>, a: EntityId, t: Transaction)
    ensures
        balance_of(rows.push(t), a) == balance_of(rows, a) + (if t.account_id == a && t.base.deleted_at is None {
            if t.transaction_type == TransactionType::Income { t.amount as int } else { -(t.amount as int) }
        } else {
            0
        }),
{
    lemma_sum_push(rows, t, weight_of(IncomeOf { account_id: a }));
    lemma_sum_push(rows, t, weight_of(OutflowOf { account_id: a }));
}


/// Converting rounds toward zero: the converted amount, scaled back by the fixed-point
/// precision, lies within one unit of the exact product on the side of zero, with the
/// product's sign.
pub proof fn lemma_conversion_rounds_toward_zero(amount: i64, rate: i64)
    ensures
        ({
            let exact = amount as int * rate as int;
            let c = crate::entities::exchange_rate::converted(amount, rate);
            let p = crate::entities::exchange_rate::RATE_PRECISION as int;
            &&& exact >= 0 ==> 0 <= c * p && c * p <= exact && exact < c * p + p
            &&& exact < 0 ==> exact <= c * p && c * p <= 0 && c * p - p < exact
        }),
{
    let exact = amount as int * rate as int;
    let p: int = 1_000_000;
    if exact >= 0 {
        let q = exact / p;
        assert(0 <= q * p && q * p <= exact && exact < q * p + p) by (nonlinear_arith)
            requires
                exact >= 0,
                p == 1_000_000,
                q == exact / p,
        ;
    } else {
        let q = (-exact) / p;
        assert(0 <= q * p && q * p <= -exact && -exact < q * p + p) by (nonlinear_arith)
            requires
                -exact > 0,
                p == 1_000_000,
                q == (-exact) / p,
        ;
        assert((-q) * p == -(q * p)) by (nonlinear_arith);
    }
}


/// Spending by category lists the largest total first: along the list the totals never
/// grow, and categories with equal totals come in increasing identifier order.
pub proof fn lemma_spending_largest_first<G: crate::repositories::transaction_repository::Grouping>(
    b: Seq<crate::repositories::transaction_repository::Bucket>,
    rows: Seq<Transaction>,
    g: G,
)
    requires
        crate::repositories::category_spending::groups_ranked(b, rows, g),
    ensures
        forall|i: int, j: int| 0 <= i < j < b.len() ==> (#[trigger] b[i]).first >= (#[trigger] b[j]).first
            && (b[i].first == b[j].first ==> b[i].key < b[j].key),
{
}

} // verus!
