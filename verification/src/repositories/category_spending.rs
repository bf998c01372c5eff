//! Spending of an account per category over a period, largest first.
use vstd::prelude::*;
use crate::entities::category::Category;
use crate::entities::common::TransactionType;
use crate::entities::transaction::Transaction;
use crate::errors::DomainError;
use crate::ids::EntityId;
use crate::queries::{count_by, sum_by};
use crate::records::{Retirable, lookup_live};
use crate::repositories::category_repository::InMemoryCategoryRepository;
use crate::queries::lemma_sum_zero;
use crate::repositories::transaction_repository::{
    Bucket, Grouping, InMemoryTransactionRepository, first_in_group, fits, fits_i64, groups_of, in_group,
    integer_overflow, integer_overflow_message, second_in_group,
};
use crate::repositories::transaction_statistics::{group_totals_fit, in_period, lemma_totals_fit, within_period};
use crate::time::Timestamp;
use crate::use_cases::statistics_use_cases::CategorySpending;

verus! {

/// Live expenses of an account within a period whose category is stored and live,
/// grouped by category: the amount first, nothing second.
pub struct ByCategory<'a> {
    pub account_id: EntityId,
    pub from: Timestamp,
    pub to: Timestamp,
    pub categories: &'a InMemoryCategoryRepository,
}

impl<'a> Grouping for ByCategory<'a> {
    open spec fn includes(&self, t: Transaction) -> bool {
        &&& in_period(t, self.account_id, self.from, self.to)
        &&& t.transaction_type == TransactionType::Expense
        &&& lookup_live(self.categories@, t.category_id) is Some
    }

    open spec fn group_key(&self, t: Transaction) -> u128 {
        t.category_id
    }

    open spec fn first(&self, t: Transaction) -> int {
        t.amount as int
    }

    open spec fn second(&self, t: Transaction) -> int {
        0
    }

    open spec fn key_limit(&self) -> u128 {
        u128::MAX
    }

    open spec fn ready(&self) -> bool {
        self.categories.wf()
    }

    proof fn lemma_key_limit(&self, t: Transaction) {
    }

    fn counts(&self, t: &Transaction) -> (r: bool) {
        if !within_period(t, self.account_id, &self.from, &self.to) || t.transaction_type != TransactionType::Expense {
            return false;
        }
        match self.categories.find_by_id(t.category_id) {
            Ok(Some(_)) => true,
            _ => false,
        }
    }

    fn key_of(&self, t: &Transaction) -> (r: u128) {
        t.category_id
    }

    fn first_of(&self, t: &Transaction) -> (r: i64) {
        t.amount
    }

    fn second_of(&self, t: &Transaction) -> (r: i64) {
        0
    }
}

/// Whether group `a` is listed before group `b`: larger first total first, and on equal
/// totals the smaller key first.
pub open spec fn ranked_before(a: Bucket, b: Bucket) -> bool {
    a.first > b.first || (a.first == b.first && a.key < b.key)
}

/// Whether `b` lists the groups of `rows` under `g` ranked by `ranked_before`: one entry per
/// group that has a counted transaction, each with its sums and count.
pub open spec fn groups_ranked<G: Grouping>(b: Seq<Bucket>, rows: Seq<Transaction>, g: G) -> bool {
    &&& forall|i: int, j: int| 0 <= i < j < b.len() ==> ranked_before(#[trigger] b[i], #[trigger] b[j])
    &&& forall|i: int| 0 <= i < b.len() ==> {
        &&& #[trigger] b[i].first == sum_by(rows, first_in_group(g, b[i].key))
        &&& b[i].second == sum_by(rows, second_in_group(g, b[i].key))
        &&& b[i].count == count_by(rows, in_group(g, b[i].key))
        &&& b[i].count > 0
    }
    &&& forall|k: int| 0 <= k < rows.len() && g.includes(rows[k]) ==>
        exists|i: int| 0 <= i < b.len() && #[trigger] b[i].key == g.group_key(#[trigger] rows[k])
}

/// The groups of `b` (in increasing key order) ranked by `ranked_before`, with where each
/// ranked entry comes from in `b` and where each entry of `b` went.
fn rank_buckets(b: &Vec<Bucket>) -> (r: (Vec<Bucket>, Ghost<Seq<int>>, Ghost<Seq<int>>))
    requires
        forall|i: int, j: int| 0 <= i < j < b@.len() ==> #[trigger] b@[i].key < #[trigger] b@[j].key,
    ensures
        r.0@.len() == b@.len(),
        forall|i: int, j: int| 0 <= i < j < r.0@.len() ==> ranked_before(#[trigger] r.0@[i], #[trigger] r.0@[j]),
        r.1@.len() == r.0@.len(),
        forall|a: int| 0 <= a < r.0@.len() ==> 0 <= #[trigger] r.1@[a] < b@.len() && r.0@[a] == b@[r.1@[a]],
        r.2@.len() == b@.len(),
        forall|j: int| 0 <= j < b@.len() ==> 0 <= #[trigger] r.2@[j] < r.0@.len() && r.0@[r.2@[j]] == b@[j],
{
    let n = b.len();
    let mut out: Vec<Bucket> = Vec::new();
    let ghost mut src: Seq<int> = Seq::empty();
    let ghost mut dst: Seq<int> = Seq::empty();
    let mut i: usize = 0;
    while i < n
        invariant
            n == b@.len(),
            i <= n,
            forall|x: int, y: int| 0 <= x < y < b@.len() ==> #[trigger] b@[x].key < #[trigger] b@[y].key,
            out@.len() == i,
            forall|x: int, y: int| 0 <= x < y < out@.len() ==> ranked_before(#[trigger] out@[x], #[trigger] out@[y]),
            src.len() == out@.len(),
            forall|a: int| 0 <= a < out@.len() ==> 0 <= #[trigger] src[a] < i && out@[a] == b@[src[a]],
            dst.len() == i,
            forall|j: int| 0 <= j < i ==> 0 <= #[trigger] dst[j] < out@.len() && out@[dst[j]] == b@[j],
        decreases n - i,
    {
        let x = b[i];
        let m = out.len();
        let mut p: usize = 0;
        while p < m && !(x.first > out[p].first)
            invariant
                m == out@.len(),
                p <= m,
                x == b@[i as int],
                forall|k: int| 0 <= k < p ==> #[trigger] out@[k].first >= x.first,
            decreases m - p,
        {
            p += 1;
        }
        let ghost old_out = out@;
        let ghost old_src = src;
        let ghost old_dst = dst;
        proof {
            assert forall|k: int| 0 <= k < old_out.len() implies #[trigger] old_out[k].key < x.key by {
                assert(0 <= old_src[k] < i);
                assert(old_out[k] == b@[old_src[k]]);
                assert(b@[old_src[k]].key < b@[i as int].key);
            }
            assert forall|k: int| p <= k < old_out.len() implies #[trigger] old_out[k].first < x.first by {
                if k > p {
                    assert(ranked_before(old_out[p as int], old_out[k]));
                }
            }
        }
        out.insert(p, x);
        proof {
            src = old_src.insert(p as int, i as int);
            dst = old_dst.map_values(|d: int| if d >= p { d + 1 } else { d }).push(p as int);
            assert forall|y: int, z: int| 0 <= y < z < out@.len() implies ranked_before(#[trigger] out@[y], #[trigger] out@[z]) by {
                if z < p {
                    assert(out@[y] == old_out[y] && out@[z] == old_out[z]);
                } else if z == p {
                    assert(out@[y] == old_out[y]);
                    assert(old_out[y].first >= x.first);
                    assert(old_out[y].key < x.key);
                } else if y < p {
                    assert(out@[y] == old_out[y] && out@[z] == old_out[z - 1]);
                    assert(ranked_before(old_out[y], old_out[z - 1]));
                } else if y == p {
                    assert(out@[z] == old_out[z - 1]);
                    assert(old_out[z - 1].first < x.first);
                } else {
                    assert(out@[y] == old_out[y - 1] && out@[z] == old_out[z - 1]);
                    assert(ranked_before(old_out[y - 1], old_out[z - 1]));
                }
            }
            assert forall|a: int| 0 <= a < out@.len() implies 0 <= #[trigger] src[a] < i + 1 && out@[a] == b@[src[a]] by {
                if a < p {
                    assert(src[a] == old_src[a]);
                    assert(out@[a] == old_out[a]);
                } else if a > p {
                    assert(src[a] == old_src[a - 1]);
                    assert(out@[a] == old_out[a - 1]);
                }
            }
            assert forall|j: int| 0 <= j < i + 1 implies 0 <= #[trigger] dst[j] < out@.len() && out@[dst[j]] == b@[j] by {
                if j < i {
                    let d = old_dst[j];
                    assert(0 <= d < old_out.len() && old_out[d] == b@[j]);
                    if d >= p {
                        assert(dst[j] == d + 1);
                        assert(out@[d + 1] == old_out[d]);
                    } else {
                        assert(dst[j] == d);
                        assert(out@[d] == old_out[d]);
                    }
                }
            }
        }
        i += 1;
    }
    (out, Ghost(src), Ghost(dst))
}

/// A ranking of the groups of `rows` (each entry one of them, each of them an entry)
/// lists those groups ranked.
pub proof fn lemma_ranked_groups<G: Grouping>(
    b: Seq<Bucket>,
    r: Seq<Bucket>,
    src: Seq<int>,
    dst: Seq<int>,
    rows: Seq<Transaction>,
    g: G,
)
    requires
        groups_of(b, rows, g),
        forall|i: int, j: int| 0 <= i < j < r.len() ==> ranked_before(#[trigger] r[i], #[trigger] r[j]),
        src.len() == r.len(),
        forall|a: int| 0 <= a < r.len() ==> 0 <= #[trigger] src[a] < b.len() && r[a] == b[src[a]],
        dst.len() == b.len(),
        forall|j: int| 0 <= j < b.len() ==> 0 <= #[trigger] dst[j] < r.len() && r[dst[j]] == b[j],
    ensures
        groups_ranked(r, rows, g),
{
    assert forall|a: int| 0 <= a < r.len() implies {
        &&& #[trigger] r[a].first == sum_by(rows, first_in_group(g, r[a].key))
        &&& r[a].second == sum_by(rows, second_in_group(g, r[a].key))
        &&& r[a].count == count_by(rows, in_group(g, r[a].key))
        &&& r[a].count > 0
    } by {
        let j = src[a];
        assert(b[j].first == sum_by(rows, first_in_group(g, b[j].key)));
    }
    assert forall|k: int| 0 <= k < rows.len() && g.includes(rows[k]) implies
        exists|i: int| 0 <= i < r.len() && #[trigger] r[i].key == g.group_key(#[trigger] rows[k]) by {
        let j = choose|j: int| 0 <= j < b.len() && #[trigger] b[j].key == g.group_key(#[trigger] rows[k]);
        let a = dst[j];
        assert(r[a].key == g.group_key(rows[k]));
    }
}

/// The spending entry read back as a group.
pub open spec fn spending_bucket(s: CategorySpending) -> Bucket {
    Bucket { key: s.category_id, first: s.total_amount as i128, second: 0, count: s.transaction_count }
}

/// The spending entries read back as groups.
pub open spec fn spending_buckets(v: Seq<CategorySpending>) -> Seq<Bucket> {
    v.map_values(|s: CategorySpending| spending_bucket(s))
}

/// The name of the live category with identifier `id` (empty when there is none).
pub open spec fn category_name(categories: Seq<Category>, id: EntityId) -> Seq<char> {
    match lookup_live(categories, id) {
        Some(c) => c.name@,
        None => Seq::empty(),
    }
}

impl InMemoryTransactionRepository {
    /// Total and number of the live expenses of an account within `[from, to]` per category,
    /// counting only categories that are stored and live, largest total first (equal totals
    /// by category identifier), each with its category's name. Fails when a total is beyond
    /// `i64`.
    pub fn get_spending_by_category(
        &self,
        categories: &InMemoryCategoryRepository,
        account_id: EntityId,
        from: Timestamp,
        to: Timestamp,
    ) -> (r: Result<Vec<CategorySpending>, DomainError>)
        requires
            categories.wf(),
        ensures
            r is Ok <==> group_totals_fit(self@, ByCategory { account_id, from, to, categories }),
            r matches Ok(v) ==> groups_ranked(spending_buckets(v@), self@, ByCategory { account_id, from, to, categories })
                && forall|i: int| 0 <= i < v@.len()
                    ==> #[trigger] v@[i].category_name@ == category_name(categories@, v@[i].category_id),
            r matches Err(e) ==> e is Storage && e.message() == integer_overflow_message(),
    {
        let g = ByCategory { account_id, from, to, categories };
        let b = self.group_by(&g);
        let (ranked, Ghost(src), Ghost(dst)) = rank_buckets(&b);
        let mut out: Vec<CategorySpending> = Vec::new();
        let mut i: usize = 0;
        while i < ranked.len()
            invariant
                g == (ByCategory { account_id, from, to, categories }),
                categories.wf(),
                groups_of(b@, self@, g),
                ranked@.len() == b@.len(),
                src.len() == ranked@.len(),
                forall|a: int| 0 <= a < ranked@.len() ==> 0 <= #[trigger] src[a] < b@.len() && ranked@[a] == b@[src[a]],
                dst.len() == b@.len(),
                forall|j: int| 0 <= j < b@.len() ==> 0 <= #[trigger] dst[j] < ranked@.len() && ranked@[dst[j]] == b@[j],
                forall|x: int, y: int| 0 <= x < y < ranked@.len() ==> ranked_before(#[trigger] ranked@[x], #[trigger] ranked@[y]),
                forall|j: int| 0 <= j < i ==> fits_i64(#[trigger] ranked@[j].first as int) && ranked@[j].second == 0,
                i <= ranked@.len(),
                out@.len() == i,
                forall|j: int| 0 <= j < i ==> #[trigger] spending_bucket(out@[j]) == ranked@[j],
                forall|j: int| 0 <= j < i ==> #[trigger] out@[j].category_name@ == category_name(categories@, out@[j].category_id),
            decreases ranked@.len() - i,
        {
            let bk = ranked[i];
            let ghost j = src[i as int];
            assert(b@[j].first == sum_by(self@, first_in_group(g, b@[j].key)));
            assert(bk.second == 0) by {
                assert(b@[j].second == sum_by(self@, second_in_group(g, bk.key)));
                assert forall|k: int| 0 <= k < self@.len() implies
                    #[trigger] second_in_group(g, bk.key)(self@[k]) == 0
                    && !(|t: Transaction| false)(self@[k]) by {}
                lemma_sum_zero(self@, second_in_group(g, bk.key), |t: Transaction| false);
            }
            if !fits(bk.first) {
                proof {
                    let k = bk.key;
                    assert(!(fits_i64(sum_by(self@, first_in_group(g, k)))
                        && fits_i64(sum_by(self@, second_in_group(g, k)))
                        && fits_i64(sum_by(self@, first_in_group(g, k))
                            - sum_by(self@, second_in_group(g, k)))));
                    assert(!group_totals_fit(self@, g));
                }
                return Err(integer_overflow());
            }
            let name = match categories.find_by_id(bk.key) {
                Ok(Some(c)) => c.name,
                _ => String::new(),
            };
            out.push(CategorySpending {
                category_id: bk.key,
                category_name: name,
                total_amount: bk.first as i64,
                transaction_count: bk.count,
            });
            i += 1;
        }
        proof {
            assert forall|x: int| 0 <= x < b@.len() implies fits_i64(#[trigger] b@[x].first as int) && fits_i64(b@[x].second as int)
                && fits_i64(b@[x].first - b@[x].second) by {
                let a = dst[x];
                assert(fits_i64(ranked@[a].first as int) && ranked@[a].second == 0);
            }
            lemma_totals_fit(b@, self@, g);
            assert(spending_buckets(out@) =~= ranked@);
            lemma_ranked_groups(b@, ranked@, src, dst, self@, g);
        }
        Ok(out)
    }
}

} // verus!
