//! Totals and groupings of stored transactions over a period: income against
//! expenses, monthly trends, daily spending and the spending of a budget.
use vstd::prelude::*;
use crate::entities::common::TransactionType;
use crate::entities::transaction::Transaction;
use crate::errors::DomainError;
use crate::ids::EntityId;
use crate::queries::sum_by;
use crate::queries::{count_by, lemma_sum_zero};
use crate::repositories::transaction_repository::{
    Bucket, Grouping, InMemoryTransactionRepository, Measure, first_in_group, fits, fits_i64, groups_of,
    in_group, integer_overflow, integer_overflow_message, second_in_group, weight_of,
};
use crate::time::{MAX_UNIX_SECONDS, MIN_UNIX_SECONDS, SECONDS_PER_DAY, Timestamp, utc_date_text, utc_month, utc_year};
use crate::use_cases::statistics_use_cases::{DailySpending, IncomeSummary, MonthlyTrend};

verus! {

/// Whether `t` is a live transaction of the account dated within `[from, to]`.
pub open spec fn in_period(t: Transaction, account_id: EntityId, from: Timestamp, to: Timestamp) -> bool {
    &&& t.account_id == account_id
    &&& !t.deleted()
    &&& from.unix() <= t.date.unix()
    &&& t.date.unix() <= to.unix()
}

/// Whether `t` is a live transaction of the account dated within `[from, to]`.
pub fn within_period(t: &Transaction, account_id: EntityId, from: &Timestamp, to: &Timestamp) -> (r: bool)
    ensures
        r == in_period(*t, account_id, *from, *to),
{
    t.account_id == account_id && !t.base.is_deleted() && !t.date.is_before(from) && !t.date.is_after(to)
}

/// The amounts of the live transactions of one kind of an account within a period,
/// optionally only those of one category, optionally only those not paired with another
/// transaction.
pub struct PeriodTotal {
    pub account_id: EntityId,
    pub from: Timestamp,
    pub to: Timestamp,
    pub kind: TransactionType,
    pub category_id: Option<EntityId>,
    pub unlinked_only: bool,
}

impl Measure for PeriodTotal {
    open spec fn weight(&self, t: Transaction) -> int {
        if in_period(t, self.account_id, self.from, self.to) && t.transaction_type == self.kind
            && (self.category_id matches Some(c) ==> t.category_id == c)
            && (self.unlinked_only ==> t.linked_transaction_id is None) {
            t.amount as int
        } else {
            0
        }
    }

    fn weigh(&self, t: &Transaction) -> (r: i64) {
        let category_ok = match self.category_id {
            Some(c) => t.category_id == c,
            None => true,
        };
        if within_period(t, self.account_id, &self.from, &self.to) && t.transaction_type == self.kind
            && category_ok && (!self.unlinked_only || t.linked_transaction_id.is_none()) {
            t.amount
        } else {
            0
        }
    }
}

/// Sum of the amounts of the live transactions of kind `kind` of an account within
/// `[from, to]` that are not paired with another transaction.
pub open spec fn unlinked_total(
    rows: Seq<Transaction>,
    account_id: EntityId,
    from: Timestamp,
    to: Timestamp,
    kind: TransactionType,
) -> int {
    sum_by(rows, weight_of(PeriodTotal { account_id, from, to, kind, category_id: None, unlinked_only: true }))
}

/// Sum of the amounts of the live expenses of an account within `[from, to]`,
/// of one category when `category_id` is set.
pub open spec fn spent_total(
    rows: Seq<Transaction>,
    account_id: EntityId,
    category_id: Option<EntityId>,
    from: Timestamp,
    to: Timestamp,
) -> int {
    sum_by(rows, weight_of(PeriodTotal {
        account_id,
        from,
        to,
        kind: TransactionType::Expense,
        category_id,
        unlinked_only: false,
    }))
}

/// `x` bounded to `[0, hi]`.
pub open spec fn clamp(x: int, hi: int) -> int {
    if x < 0 {
        0
    } else if x > hi {
        hi
    } else {
        x
    }
}

/// Largest year offset a month key holds.
pub const MONTH_KEY_YEARS: u128 = 524_287;

/// Key of a calendar month, increasing with the year and then the month: sixteen times
/// the year shifted to be positive, plus the month (years and months out of range are
/// bounded).
pub open spec fn month_key(year: int, month: int) -> u128 {
    (clamp(year + 262_144, MONTH_KEY_YEARS as int) * 16 + clamp(month, 15)) as u128
}

/// Largest month key.
pub open spec fn month_key_limit() -> u128 {
    (MONTH_KEY_YEARS * 16 + 15) as u128
}

/// Standalone live transactions of an account within a period, grouped by calendar month
/// of their date: income first, expenses second.
pub struct ByMonth {
    pub account_id: EntityId,
    pub from: Timestamp,
    pub to: Timestamp,
}

impl Grouping for ByMonth {
    open spec fn includes(&self, t: Transaction) -> bool {
        in_period(t, self.account_id, self.from, self.to) && t.linked_transaction_id is None
    }

    open spec fn group_key(&self, t: Transaction) -> u128 {
        month_key(utc_year(t.date.unix()) as int, utc_month(t.date.unix()) as int)
    }

    open spec fn first(&self, t: Transaction) -> int {
        if t.transaction_type == TransactionType::Income { t.amount as int } else { 0 }
    }

    open spec fn second(&self, t: Transaction) -> int {
        if t.transaction_type == TransactionType::Expense { t.amount as int } else { 0 }
    }

    open spec fn key_limit(&self) -> u128 {
        month_key_limit()
    }

    open spec fn ready(&self) -> bool {
        true
    }

    proof fn lemma_key_limit(&self, t: Transaction) {
    }

    fn counts(&self, t: &Transaction) -> (r: bool) {
        within_period(t, self.account_id, &self.from, &self.to) && t.linked_transaction_id.is_none()
    }

    fn key_of(&self, t: &Transaction) -> (r: u128) {
        let y = t.date.year();
        let m = t.date.month();
        let shifted: i64 = y as i64 + 262_144;
        (shifted as u128) * 16 + m as u128
    }

    fn first_of(&self, t: &Transaction) -> (r: i64) {
        if t.transaction_type == TransactionType::Income { t.amount } else { 0 }
    }

    fn second_of(&self, t: &Transaction) -> (r: i64) {
        if t.transaction_type == TransactionType::Expense { t.amount } else { 0 }
    }
}

/// Number of whole days between the earliest representable instant and the latest.
pub const DAY_KEY_LIMIT: u128 = 191_491_528;

/// Key of the UTC day of `secs`: the whole days elapsed since the earliest representable
/// instant (bounded to the representable range).
pub open spec fn day_key(secs: int) -> u128 {
    clamp((secs - MIN_UNIX_SECONDS) / (SECONDS_PER_DAY as int), DAY_KEY_LIMIT as int) as u128
}

/// The first instant of the day with key `key`, in seconds since the epoch.
pub open spec fn day_start(key: u128) -> int {
    key * SECONDS_PER_DAY + MIN_UNIX_SECONDS
}

/// Standalone live expenses of an account within a period, grouped by UTC day:
/// the amount first, nothing second.
pub struct ByDay {
    pub account_id: EntityId,
    pub from: Timestamp,
    pub to: Timestamp,
}

impl Grouping for ByDay {
    open spec fn includes(&self, t: Transaction) -> bool {
        &&& in_period(t, self.account_id, self.from, self.to)
        &&& t.transaction_type == TransactionType::Expense
        &&& t.linked_transaction_id is None
    }

    open spec fn group_key(&self, t: Transaction) -> u128 {
        day_key(t.date.unix() as int)
    }

    open spec fn first(&self, t: Transaction) -> int {
        t.amount as int
    }

    open spec fn second(&self, t: Transaction) -> int {
        0
    }

    open spec fn key_limit(&self) -> u128 {
        DAY_KEY_LIMIT
    }

    open spec fn ready(&self) -> bool {
        true
    }

    proof fn lemma_key_limit(&self, t: Transaction) {
    }

    fn counts(&self, t: &Transaction) -> (r: bool) {
        within_period(t, self.account_id, &self.from, &self.to)
            && t.transaction_type == TransactionType::Expense
            && t.linked_transaction_id.is_none()
    }

    fn key_of(&self, t: &Transaction) -> (r: u128) {
        let s = t.date.unix_seconds();
        let elapsed: i64 = s - MIN_UNIX_SECONDS;
        assert(elapsed / SECONDS_PER_DAY <= DAY_KEY_LIMIT) by {
            assert(MAX_UNIX_SECONDS - MIN_UNIX_SECONDS == 16_544_868_105_599);
        }
        (elapsed / SECONDS_PER_DAY) as u128
    }

    fn first_of(&self, t: &Transaction) -> (r: i64) {
        t.amount
    }

    fn second_of(&self, t: &Transaction) -> (r: i64) {
        0
    }
}

/// The monthly trend a group of transactions stands for, read back as a group.
pub open spec fn trend_bucket(t: MonthlyTrend) -> Bucket {
    Bucket {
        key: month_key(t.year as int, t.month as int),
        first: t.income as i128,
        second: t.expenses as i128,
        count: t.transaction_count,
    }
}

/// The monthly trends read back as groups.
pub open spec fn trend_buckets(v: Seq<MonthlyTrend>) -> Seq<Bucket> {
    v.map_values(|t: MonthlyTrend| trend_bucket(t))
}

/// The daily spending a group of transactions stands for, read back as a group
/// (without its date text).
pub open spec fn daily_bucket(d: DailySpending, key: u128) -> Bucket {
    Bucket { key, first: d.amount as i128, second: 0, count: d.transaction_count }
}

/// Whether the totals of every group of `rows` under `g` (any key) fit in `i64`,
/// and so does the first total minus the second.
pub open spec fn group_totals_fit<G: Grouping>(rows: Seq<Transaction>, g: G) -> bool {
    forall|k: u128| {
        &&& fits_i64(#[trigger] sum_by(rows, first_in_group(g, k)))
        &&& fits_i64(sum_by(rows, second_in_group(g, k)))
        &&& fits_i64(sum_by(rows, first_in_group(g, k))
            - sum_by(rows, second_in_group(g, k)))
    }
}

/// A key that no group has: nothing is summed or counted under it.
pub proof fn lemma_absent_group<G: Grouping>(b: Seq<Bucket>, rows: Seq<Transaction>, g: G, k: u128)
    requires
        groups_of(b, rows, g),
        forall|i: int| 0 <= i < b.len() ==> #[trigger] b[i].key != k,
    ensures
        sum_by(rows, first_in_group(g, k)) == 0,
        sum_by(rows, second_in_group(g, k)) == 0,
        count_by(rows, in_group(g, k)) == 0,
{
    assert forall|j: int| 0 <= j < rows.len() implies #[trigger] first_in_group(g, k)(rows[j]) == 0
        && !in_group(g, k)(rows[j]) by {
        if g.includes(rows[j]) && g.group_key(rows[j]) == k {
            let i = choose|i: int| 0 <= i < b.len() && #[trigger] b[i].key == g.group_key(rows[j]);
            assert(b[i].key == k);
        }
    }
    assert forall|j: int| 0 <= j < rows.len() implies #[trigger] second_in_group(g, k)(rows[j]) == 0 by {
        assert(first_in_group(g, k)(rows[j]) == 0 && !in_group(g, k)(rows[j]));
    }
    lemma_sum_zero(rows, first_in_group(g, k), in_group(g, k));
    lemma_sum_zero(rows, second_in_group(g, k), in_group(g, k));
}

/// When every group found fits, every group of every key fits.
pub proof fn lemma_totals_fit<G: Grouping>(b: Seq<Bucket>, rows: Seq<Transaction>, g: G)
    requires
        groups_of(b, rows, g),
        forall|i: int| 0 <= i < b.len() ==> fits_i64(#[trigger] b[i].first as int) && fits_i64(b[i].second as int)
            && fits_i64(b[i].first - b[i].second),
    ensures
        group_totals_fit(rows, g),
{
    assert forall|k: u128| {
        &&& fits_i64(#[trigger] sum_by(rows, first_in_group(g, k)))
        &&& fits_i64(sum_by(rows, second_in_group(g, k)))
        &&& fits_i64(sum_by(rows, first_in_group(g, k)) - sum_by(rows, second_in_group(g, k)))
    } by {
        if exists|i: int| 0 <= i < b.len() && #[trigger] b[i].key == k {
            let i = choose|i: int| 0 <= i < b.len() && #[trigger] b[i].key == k;
            assert(fits_i64(b[i].first as int));
        } else {
            lemma_absent_group(b, rows, g, k);
        }
    }
}

impl InMemoryTransactionRepository {
    /// Income, expenses and outgoing transfers of an account within `[from, to]`, counting
    /// only live transactions not paired with another one, and the net amount (income minus
    /// expenses and transfers). Fails when a total or the net amount is beyond `i64`.
    pub fn get_income_vs_expenses(&self, account_id: EntityId, from: Timestamp, to: Timestamp)
        -> (r: Result<IncomeSummary, DomainError>)
        ensures
            ({
                let income = unlinked_total(self@, account_id, from, to, TransactionType::Income);
                let expenses = unlinked_total(self@, account_id, from, to, TransactionType::Expense);
                let transfers = unlinked_total(self@, account_id, from, to, TransactionType::Transfer);
                &&& r is Ok <==> fits_i64(income) && fits_i64(expenses) && fits_i64(transfers)
                    && fits_i64(income - expenses - transfers)
                &&& r matches Ok(s) ==> s.income == income && s.expenses == expenses
                    && s.transfers == transfers && s.net == income - expenses - transfers
                &&& r matches Err(e) ==> e is Storage && e.message() == integer_overflow_message()
            }),
    {
        let income = self.total_of(&PeriodTotal {
            account_id, from, to, kind: TransactionType::Income, category_id: None, unlinked_only: true,
        });
        let expenses = self.total_of(&PeriodTotal {
            account_id, from, to, kind: TransactionType::Expense, category_id: None, unlinked_only: true,
        });
        let transfers = self.total_of(&PeriodTotal {
            account_id, from, to, kind: TransactionType::Transfer, category_id: None, unlinked_only: true,
        });
        if !fits(income) || !fits(expenses) || !fits(transfers) {
            return Err(integer_overflow());
        }
        let net = income - expenses - transfers;
        if !fits(net) {
            return Err(integer_overflow());
        }
        Ok(IncomeSummary {
            income: income as i64,
            expenses: expenses as i64,
            transfers: transfers as i64,
            net: net as i64,
        })
    }

    /// Total of the live expenses of an account within `[from, to]`, of one category when
    /// `category_id` is set. Fails when the total is beyond `i64`.
    pub fn get_budget_spent(
        &self,
        account_id: EntityId,
        category_id: Option<EntityId>,
        from: Timestamp,
        to: Timestamp,
    ) -> (r: Result<i64, DomainError>)
        ensures
            ({
                let spent = spent_total(self@, account_id, category_id, from, to);
                &&& r is Ok <==> fits_i64(spent)
                &&& r matches Ok(s) ==> s == spent
                &&& r matches Err(e) ==> e is Storage && e.message() == integer_overflow_message()
            }),
    {
        let spent = self.total_of(&PeriodTotal {
            account_id, from, to, kind: TransactionType::Expense, category_id, unlinked_only: false,
        });
        if !fits(spent) {
            return Err(integer_overflow());
        }
        Ok(spent as i64)
    }

    /// Income and expenses per calendar month of the live transactions of an account within
    /// `[from, to]` that are not paired with another one, earliest month first: one entry for
    /// each month in which such a transaction falls, counting all of them. Fails when a
    /// month's totals or net amount are beyond `i64`.
    pub fn get_monthly_trends(&self, account_id: EntityId, from: Timestamp, to: Timestamp)
        -> (r: Result<Vec<MonthlyTrend>, DomainError>)
        ensures
            r is Ok <==> group_totals_fit(self@, ByMonth { account_id, from, to }),
            r matches Ok(v) ==> groups_of(trend_buckets(v@), self@, ByMonth { account_id, from, to })
                && forall|i: int| 0 <= i < v@.len() ==> #[trigger] v@[i].net == v@[i].income - v@[i].expenses,
            r matches Err(e) ==> e is Storage && e.message() == integer_overflow_message(),
    {
        let g = ByMonth { account_id, from, to };
        let b = self.group_by(&g);
        let mut out: Vec<MonthlyTrend> = Vec::new();
        let mut i: usize = 0;
        while i < b.len()
            invariant
                g == (ByMonth { account_id, from, to }),
                groups_of(b@, self@, g),
                i <= b@.len(),
                out@.len() == i,
                forall|j: int| 0 <= j < i ==> #[trigger] trend_bucket(out@[j]) == b@[j],
                forall|j: int| 0 <= j < i ==> #[trigger] out@[j].net == out@[j].income - out@[j].expenses,
                forall|j: int| 0 <= j < i ==> fits_i64(#[trigger] b@[j].first as int) && fits_i64(b@[j].second as int)
                    && fits_i64(b@[j].first - b@[j].second),
            decreases b@.len() - i,
        {
            let bk = b[i];
            if !fits(bk.first) || !fits(bk.second) || !fits(bk.first - bk.second) {
                proof {
                    let k = bk.key;
                    assert(b@[i as int].key == k);
                    assert(b@[i as int].first == sum_by(self@, first_in_group(g, k)));
                    assert(!(fits_i64(sum_by(self@, first_in_group(g, k))) && fits_i64(sum_by(self@, second_in_group(g, k)))
                        && fits_i64(sum_by(self@, first_in_group(g, k)) - sum_by(self@, second_in_group(g, k)))));
                    assert(!group_totals_fit(self@, g));
                }
                return Err(integer_overflow());
            }
            assert(bk.key <= month_key_limit());
            let shifted: u128 = bk.key / 16;
            let year: i32 = (shifted as i64 - 262_144) as i32;
            let month: u32 = (bk.key % 16) as u32;
            let trend = MonthlyTrend {
                year,
                month,
                income: bk.first as i64,
                expenses: bk.second as i64,
                net: (bk.first - bk.second) as i64,
                transaction_count: bk.count,
            };
            assert(month_key(year as int, month as int) == bk.key) by {
                assert(bk.key == shifted * 16 + bk.key % 16);
            }
            out.push(trend);
            i += 1;
        }
        proof {
            lemma_totals_fit(b@, self@, g);
            assert(trend_buckets(out@) =~= b@);
        }
        Ok(out)
    }

    /// Expenses per UTC day of the live expenses of an account within `[from, to]` that are
    /// not paired with another transaction, earliest day first, each with its date as
    /// `YYYY-MM-DD`. Fails when a day's total is beyond `i64`.
    pub fn get_daily_spending(&self, account_id: EntityId, from: Timestamp, to: Timestamp)
        -> (r: Result<Vec<DailySpending>, DomainError>)
        ensures
            r is Ok <==> group_totals_fit(self@, ByDay { account_id, from, to }),
            r matches Ok(v) ==> exists|keys: Seq<u128>| #![trigger keys.len()] {
                &&& keys.len() == v@.len()
                &&& groups_of(keys.map(|i: int, k: u128| daily_bucket(v@[i], k)), self@, ByDay { account_id, from, to })
                &&& forall|i: int| 0 <= i < v@.len() ==> #[trigger] v@[i].date@ == utc_date_text(day_start(keys[i]) as i64)
            },
            r matches Err(e) ==> e is Storage && e.message() == integer_overflow_message(),
    {
        let g = ByDay { account_id, from, to };
        let b = self.group_by(&g);
        let mut out: Vec<DailySpending> = Vec::new();
        let ghost keys: Seq<u128> = b@.map_values(|x: Bucket| x.key);
        let mut i: usize = 0;
        while i < b.len()
            invariant
                g == (ByDay { account_id, from, to }),
                groups_of(b@, self@, g),
                keys == b@.map_values(|x: Bucket| x.key),
                i <= b@.len(),
                out@.len() == i,
                forall|j: int| 0 <= j < i ==> #[trigger] daily_bucket(out@[j], keys[j]) == b@[j]
                    && out@[j].date@ == utc_date_text(day_start(keys[j]) as i64),
                forall|j: int| 0 <= j < i ==> fits_i64(#[trigger] b@[j].first as int) && fits_i64(b@[j].second as int)
                    && fits_i64(b@[j].first - b@[j].second),
            decreases b@.len() - i,
        {
            let bk = b[i];
            assert(bk.second == 0) by {
                assert(b@[i as int].first == sum_by(self@, first_in_group(g, bk.key)));
                assert(b@[i as int].second == sum_by(self@, second_in_group(g, bk.key)));
                assert forall|j: int| 0 <= j < self@.len() implies #[trigger] second_in_group(g, bk.key)(self@[j]) == 0
                    && !(|t: Transaction| false)(self@[j]) by {}
                lemma_sum_zero(self@, second_in_group(g, bk.key), |t: Transaction| false);
            }
            if !fits(bk.first) {
                proof {
                    let k = bk.key;
                    assert(b@[i as int].key == k);
                    assert(b@[i as int].first == sum_by(self@, first_in_group(g, k)));
                    assert(!(fits_i64(sum_by(self@, first_in_group(g, k))) && fits_i64(sum_by(self@, second_in_group(g, k)))
                        && fits_i64(sum_by(self@, first_in_group(g, k)) - sum_by(self@, second_in_group(g, k)))));
                }
                return Err(integer_overflow());
            }
            assert(fits_i64(b@[i as int].first as int) && fits_i64(b@[i as int].second as int)
                && fits_i64(b@[i as int].first - b@[i as int].second));
            assert(bk.key <= DAY_KEY_LIMIT);
            let start: i64 = (bk.key as i64) * SECONDS_PER_DAY + MIN_UNIX_SECONDS;
            let day = match Timestamp::from_unix(start) {
                Some(d) => d,
                None => {
                    assert(false);
                    return Err(integer_overflow());
                },
            };
            let entry = DailySpending { date: day.date_text(), amount: bk.first as i64, transaction_count: bk.count };
            out.push(entry);
            i += 1;
        }
        proof {
            lemma_totals_fit(b@, self@, g);
            assert(keys.map(|i: int, k: u128| daily_bucket(out@[i], k)) =~= b@);
        }
        Ok(out)
    }
}

} // verus!
