//! Stored exchange rates: at most one per currency pair and source.
use vstd::prelude::*;
use crate::entities::exchange_rate::{ExchangeRate, RATE_PRECISION, RateSource};
use crate::errors::DomainError;
use crate::queries::{Order, insert_in_order, lemma_prefix_step, lemma_stable_sort_push, relation, stable_sort};
use crate::text::{is_text_before, text_before, text_eq, unicode_uppercase, uppercase};
use crate::time::Timestamp;

verus! {

/// Whether two rates are for the same currency pair and source.
pub open spec fn same_slot(a: ExchangeRate, b: ExchangeRate) -> bool {
    a.from_currency@ == b.from_currency@ && a.to_currency@ == b.to_currency@ && a.source == b.source
}

/// Whether no two stored rates are for the same currency pair and source.
pub open spec fn unique_slots(rows: Seq<ExchangeRate>) -> bool {
    forall|i: int, j: int| 0 <= i < rows.len() && 0 <= j < rows.len() && i != j
        ==> !same_slot(#[trigger] rows[i], #[trigger] rows[j])
}

/// The stored rates after saving `x`: a rate for the same pair and source is replaced,
/// the new rate coming last.
pub open spec fn rows_saved(rows: Seq<ExchangeRate>, x: ExchangeRate) -> Seq<ExchangeRate> {
    rows.filter(|r: ExchangeRate| !same_slot(r, x)).push(x)
}

/// The stored rates after saving each rate of `batch` in turn.
pub open spec fn rows_saved_all(rows: Seq<ExchangeRate>, batch: Seq<ExchangeRate>) -> Seq<ExchangeRate>
    decreases batch.len(),
{
    if batch.len() == 0 {
        rows
    } else {
        rows_saved(rows_saved_all(rows, batch.drop_last()), batch.last())
    }
}

/// The stored rates from `from` to `to`.
pub open spec fn pair_rates(rows: Seq<ExchangeRate>, from: Seq<char>, to: Seq<char>) -> Seq<ExchangeRate> {
    rows.filter(|r: ExchangeRate| r.from_currency@ == from && r.to_currency@ == to)
}

/// Whether `x` is the stored rate from `from` to `to` of the highest-ranked source.
pub open spec fn is_best_rate(rows: Seq<ExchangeRate>, from: Seq<char>, to: Seq<char>, x: ExchangeRate) -> bool {
    &&& pair_rates(rows, from, to).contains(x)
    &&& forall|i: int| 0 <= i < pair_rates(rows, from, to).len()
        ==> (#[trigger] pair_rates(rows, from, to)[i]).source.rank() <= x.source.rank()
}

/// Rates listed by target currency (code point order), then highest-ranked source first.
pub struct ByTargetThenSource;

impl Order<ExchangeRate> for ByTargetThenSource {
    open spec fn before(a: ExchangeRate, b: ExchangeRate) -> bool {
        text_before(a.to_currency@, b.to_currency@)
            || (a.to_currency@ == b.to_currency@ && a.source.rank() > b.source.rank())
    }

    fn precedes(a: &ExchangeRate, b: &ExchangeRate) -> (r: bool) {
        is_text_before(a.to_currency.as_str(), b.to_currency.as_str()) || (text_eq(
            a.to_currency.as_str(),
            b.to_currency.as_str(),
        ) && a.source.priority() > b.source.priority())
    }
}

/// The stored rates from currency `from`, by target currency then highest-ranked source first.
pub open spec fn rates_from(rows: Seq<ExchangeRate>, from: Seq<char>) -> Seq<ExchangeRate> {
    stable_sort(rows.filter(|r: ExchangeRate| r.from_currency@ == from), relation::<ExchangeRate, ByTargetThenSource>())
}

/// Stored exchange rates, at most one per currency pair and source.
pub struct InMemoryExchangeRateRepository {
    rows: Vec<ExchangeRate>,
}

impl View for InMemoryExchangeRateRepository {
    type V = Seq<ExchangeRate>;

    closed spec fn view(&self) -> Seq<ExchangeRate> {
        self.rows@
    }
}

/// Keeping some of the rates keeps the slots unique.
pub(crate) proof fn lemma_filter_unique(s: Seq<ExchangeRate>, p: spec_fn(ExchangeRate) -> bool)
    requires
        unique_slots(s),
    ensures
        unique_slots(s.filter(p)),
        forall|k: int| 0 <= k < s.filter(p).len() ==> s.contains(#[trigger] s.filter(p)[k]),
    decreases s.len(),
{
    reveal_with_fuel(Seq::filter, 1);
    if s.len() > 0 {
        let t = s.drop_last();
        assert forall|i: int, j: int| 0 <= i < t.len() && 0 <= j < t.len() && i != j
            implies !same_slot(#[trigger] t[i], #[trigger] t[j]) by {
            assert(t[i] == s[i] && t[j] == s[j]);
        }
        lemma_filter_unique(t, p);
        let f = t.filter(p);
        assert forall|k: int| 0 <= k < f.len() implies s.contains(#[trigger] f[k]) by {
            assert(t.contains(f[k]));
            let m = choose|m: int| 0 <= m < t.len() && t[m] == f[k];
            assert(s[m] == f[k]);
        }
        if p(s.last()) {
            assert(s.filter(p) == f.push(s.last()));
            assert forall|k: int| 0 <= k < f.len() implies !same_slot(#[trigger] f[k], s.last()) by {
                assert(t.contains(f[k]));
                let m = choose|m: int| 0 <= m < t.len() && t[m] == f[k];
                assert(s[m] == f[k]);
                assert(!same_slot(s[m], s[s.len() - 1]));
            }
            assert forall|k: int| 0 <= k < s.filter(p).len() implies s.contains(#[trigger] s.filter(p)[k]) by {
                if k == f.len() {
                    assert(s[s.len() - 1] == s.filter(p)[k]);
                } else {
                    assert(s.filter(p)[k] == f[k]);
                }
            }
        }
    }
}

impl InMemoryExchangeRateRepository {
    /// Whether no two stored rates are for the same currency pair and source.
    pub open spec fn wf(&self) -> bool {
        unique_slots(self@)
    }

    /// The stored records, in storage order (deleted ones included).
    pub fn records(&self) -> (r: &Vec<ExchangeRate>)
        ensures
            r@ == self@,
    {
        &self.rows
    }

    /// An empty repository.
    pub fn new() -> (r: InMemoryExchangeRateRepository)
        ensures
            r@ == Seq::<ExchangeRate>::empty(),
            r.wf(),
    {
        InMemoryExchangeRateRepository { rows: Vec::new() }
    }

    /// Stores a rate, replacing the one for the same currency pair and source.
    pub fn save(&mut self, rate: &ExchangeRate) -> (r: Result<(), DomainError>)
        requires
            old(self).wf(),
        ensures
            final(self).wf(),
            r is Ok,
            final(self)@ == rows_saved(old(self)@, *rate),
    {
        self.put(rate);
        Ok(())
    }

    /// Stores a rate, replacing the one for the same currency pair and source.
    fn put(&mut self, rate: &ExchangeRate)
        requires
            old(self).wf(),
        ensures
            final(self).wf(),
            final(self)@ == rows_saved(old(self)@, *rate),
    {
        let ghost p = |r: ExchangeRate| !same_slot(r, *rate);
        let n = self.rows.len();
        let mut kept: Vec<ExchangeRate> = Vec::new();
        let mut i: usize = 0;
        while i < n
            invariant
                p == (|r: ExchangeRate| !same_slot(r, *rate)),
                n == self.rows@.len(),
                i <= n,
                kept@ == self.rows@.take(i as int).filter(p),
            decreases n - i,
        {
            proof {
                lemma_prefix_step(self.rows@, i as int, |x: ExchangeRate| 0int, p);
            }
            let r = &self.rows[i];
            let slot = text_eq(r.from_currency.as_str(), rate.from_currency.as_str())
                && text_eq(r.to_currency.as_str(), rate.to_currency.as_str()) && r.source == rate.source;
            if !slot {
                kept.push(r.duplicate());
            }
            i += 1;
        }
        proof {
            assert(self.rows@.take(n as int) =~= self.rows@);
            lemma_filter_unique(self.rows@, p);
            reveal_with_fuel(Seq::filter, 1);
            assert forall|k: int| 0 <= k < kept@.len() implies !same_slot(#[trigger] kept@[k], *rate) by {
                self.rows@.lemma_filter_pred(p, k);
            }
        }
        kept.push(rate.duplicate());
        self.rows = kept;
        proof {
            assert forall|a: int, b: int| 0 <= a < self@.len() && 0 <= b < self@.len() && a != b
                implies !same_slot(#[trigger] self@[a], #[trigger] self@[b]) by {
                let m = self@.len() - 1;
                if a == m {
                    assert(!same_slot(self@[b], *rate));
                } else if b == m {
                    assert(!same_slot(self@[a], *rate));
                }
            }
        }
    }

    /// The rate to convert from `from_currency` to `to_currency` (both upper-cased): for one
    /// currency, the identity rate (1.0, bundled, fetched now); otherwise the stored rate of
    /// the highest-ranked source (user override, then cached, then bundled), if any.
    pub fn find_best_rate(&self, from_currency: &str, to_currency: &str) -> (r: Result<Option<ExchangeRate>, DomainError>)
        requires
            self.wf(),
        ensures
            ({
                let from = unicode_uppercase(from_currency@);
                let to = unicode_uppercase(to_currency@);
                &&& r is Ok
                &&& from == to ==> (r matches Ok(Some(x)) && x.from_currency@ == from && x.to_currency@ == to
                    && x.rate == RATE_PRECISION && x.source == RateSource::Bundled)
                &&& from != to ==> (r matches Ok(found) && (found is None <==> pair_rates(self@, from, to).len() == 0)
                    && (found matches Some(x) ==> is_best_rate(self@, from, to, x)))
            }),
    {
        let from = uppercase(from_currency);
        let to = uppercase(to_currency);
        if text_eq(from.as_str(), to.as_str()) {
            let same = to.clone();
            return Ok(Some(ExchangeRate {
                from_currency: from,
                to_currency: same,
                rate: RATE_PRECISION,
                source: RateSource::Bundled,
                fetched_at: Timestamp::now(),
            }));
        }
        let ghost p = |r: ExchangeRate| r.from_currency@ == from@ && r.to_currency@ == to@;
        let n = self.rows.len();
        let mut best: Option<ExchangeRate> = None;
        let mut i: usize = 0;
        while i < n
            invariant
                p == (|r: ExchangeRate| r.from_currency@ == from@ && r.to_currency@ == to@),
                n == self.rows@.len(),
                i <= n,
                best is None <==> self.rows@.take(i as int).filter(p).len() == 0,
                best matches Some(x) ==> self.rows@.take(i as int).filter(p).contains(x)
                    && forall|k: int| 0 <= k < self.rows@.take(i as int).filter(p).len()
                        ==> (#[trigger] self.rows@.take(i as int).filter(p)[k]).source.rank() <= x.source.rank(),
            decreases n - i,
        {
            proof {
                lemma_prefix_step(self.rows@, i as int, |x: ExchangeRate| 0int, p);
            }
            let r = &self.rows[i];
            if text_eq(r.from_currency.as_str(), from.as_str()) && text_eq(r.to_currency.as_str(), to.as_str()) {
                let better = match &best {
                    Some(b) => r.source.priority() > b.source.priority(),
                    None => true,
                };
                let ghost prev = self.rows@.take(i as int).filter(p);
                let ghost next = self.rows@.take(i + 1).filter(p);
                proof {
                    assert(next == prev.push(*r));
                    assert(next[prev.len() as int] == *r);
                }
                if better {
                    best = Some(r.duplicate());
                    proof {
                        assert forall|k: int| 0 <= k < next.len() implies (#[trigger] next[k]).source.rank() <= r.source.rank() by {
                            if k < prev.len() {
                                assert(next[k] == prev[k]);
                            }
                        }
                    }
                } else {
                    proof {
                        let x = best->Some_0;
                        assert(prev.contains(x));
                        let m = choose|m: int| 0 <= m < prev.len() && prev[m] == x;
                        assert(next[m] == x);
                        assert forall|k: int| 0 <= k < next.len() implies (#[trigger] next[k]).source.rank() <= x.source.rank() by {
                            if k < prev.len() {
                                assert(next[k] == prev[k]);
                            }
                        }
                    }
                }
            } else {
                proof {
                    assert(!p(self.rows@[i as int]));
                    if best is Some {
                        let x = best->Some_0;
                        let prev = self.rows@.take(i as int).filter(p);
                        let m = choose|m: int| 0 <= m < prev.len() && prev[m] == x;
                        assert(self.rows@.take(i + 1).filter(p)[m] == x);
                    }
                }
            }
            i += 1;
        }
        proof {
            assert(self.rows@.take(n as int) =~= self.rows@);
            assert(p == (|r: ExchangeRate| r.from_currency@ == from@ && r.to_currency@ == to@));
        }
        Ok(best)
    }

    /// The stored rates from currency `from_currency` (upper-cased), by target currency then
    /// highest-ranked source first.
    pub fn find_by_from_currency(&self, from_currency: &str) -> (r: Result<Vec<ExchangeRate>, DomainError>)
        ensures
            r matches Ok(v) && v@ == rates_from(self@, unicode_uppercase(from_currency@)),
    {
        let from = uppercase(from_currency);
        let ghost p = |r: ExchangeRate| r.from_currency@ == from@;
        let n = self.rows.len();
        let mut out: Vec<ExchangeRate> = Vec::new();
        let mut i: usize = 0;
        while i < n
            invariant
                p == (|r: ExchangeRate| r.from_currency@ == from@),
                n == self.rows@.len(),
                i <= n,
                out@ == stable_sort(self.rows@.take(i as int).filter(p), relation::<ExchangeRate, ByTargetThenSource>()),
            decreases n - i,
        {
            proof {
                lemma_prefix_step(self.rows@, i as int, |x: ExchangeRate| 0int, p);
            }
            let r = &self.rows[i];
            if text_eq(r.from_currency.as_str(), from.as_str()) {
                proof {
                    lemma_stable_sort_push(self.rows@.take(i as int).filter(p), *r, relation::<ExchangeRate, ByTargetThenSource>());
                }
                insert_in_order::<ExchangeRate, ByTargetThenSource>(&mut out, r.duplicate());
            }
            i += 1;
        }
        proof {
            assert(self.rows@.take(n as int) =~= self.rows@);
        }
        Ok(out)
    }

    /// Stores each rate of `rates` in turn, as `save` does.
    pub fn save_batch(&mut self, rates: &Vec<ExchangeRate>) -> (r: Result<(), DomainError>)
        requires
            old(self).wf(),
        ensures
            final(self).wf(),
            r is Ok,
            final(self)@ == rows_saved_all(old(self)@, rates@),
    {
        let n = rates.len();
        let mut i: usize = 0;
        while i < n
            invariant
                n == rates@.len(),
                i <= n,
                self.wf(),
                self@ == rows_saved_all(old(self)@, rates@.take(i as int)),
            decreases n - i,
        {
            self.put(&rates[i]);
            proof {
                assert(rates@.take(i + 1).drop_last() =~= rates@.take(i as int));
            }
            i += 1;
        }
        proof {
            assert(rates@.take(n as int) =~= rates@);
        }
        Ok(())
    }

    /// Removes every stored rate of source `source`.
    pub fn delete_by_source(&mut self, source: &RateSource) -> (r: Result<(), DomainError>)
        requires
            old(self).wf(),
        ensures
            final(self).wf(),
            r is Ok,
            final(self)@ == old(self)@.filter(|x: ExchangeRate| x.source != *source),
    {
        let ghost p = |x: ExchangeRate| x.source != *source;
        let n = self.rows.len();
        let mut kept: Vec<ExchangeRate> = Vec::new();
        let mut i: usize = 0;
        while i < n
            invariant
                p == (|x: ExchangeRate| x.source != *source),
                n == self.rows@.len(),
                i <= n,
                kept@ == self.rows@.take(i as int).filter(p),
            decreases n - i,
        {
            proof {
                lemma_prefix_step(self.rows@, i as int, |x: ExchangeRate| 0int, p);
            }
            let r = &self.rows[i];
            if r.source != *source {
                kept.push(r.duplicate());
            }
            i += 1;
        }
        proof {
            assert(self.rows@.take(n as int) =~= self.rows@);
            lemma_filter_unique(self.rows@, p);
        }
        self.rows = kept;
        Ok(())
    }
}

} // verus!
