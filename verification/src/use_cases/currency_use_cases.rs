//! Exchange rates: the bundled defaults, cached and manual rates, and conversions.
use vstd::prelude::*;
use crate::entities::exchange_rate::{ConversionResult, ExchangeRate, RATE_PRECISION, RateSource, converted};
use crate::errors::{DomainError, validation};
use crate::repositories::exchange_rate_repository::{
    InMemoryExchangeRateRepository, is_best_rate, pair_rates, rates_from, rows_saved, rows_saved_all,
};
use crate::text::{unicode_uppercase, uppercase};
use crate::time::Timestamp;

verus! {

/// Number of bundled exchange rates.
pub const BUNDLED_RATE_COUNT: usize = 18;

/// Source currency, target currency and fixed-point rate of the `i`-th bundled rate.
pub open spec fn bundled_rate_spec(i: int) -> (Seq<char>, Seq<char>, i64) {
    if i == 0 {
        ("USD"@, "EUR"@, 920_000)
    } else if i == 1 {
        ("USD"@, "GBP"@, 790_000)
    } else if i == 2 {
        ("USD"@, "JPY"@, 149_500_000)
    } else if i == 3 {
        ("USD"@, "MXN"@, 17_200_000)
    } else if i == 4 {
        ("USD"@, "CAD"@, 1_360_000)
    } else if i == 5 {
        ("USD"@, "AUD"@, 1_540_000)
    } else if i == 6 {
        ("USD"@, "CHF"@, 880_000)
    } else if i == 7 {
        ("USD"@, "CNY"@, 7_250_000)
    } else if i == 8 {
        ("USD"@, "BRL"@, 5_100_000)
    } else if i == 9 {
        ("USD"@, "INR"@, 83_500_000)
    } else if i == 10 {
        ("USD"@, "KRW"@, 1_330_000_000)
    } else if i == 11 {
        ("USD"@, "COP"@, 4_100_000_000)
    } else if i == 12 {
        ("USD"@, "ARS"@, 900_000_000)
    } else if i == 13 {
        ("USD"@, "PEN"@, 3_750_000)
    } else if i == 14 {
        ("USD"@, "CLP"@, 950_000_000)
    } else if i == 15 {
        ("EUR"@, "USD"@, 1_087_000)
    } else if i == 16 {
        ("GBP"@, "USD"@, 1_266_000)
    } else {
        ("MXN"@, "USD"@, 58_139)
    }
}

/// Source currency, target currency and fixed-point rate of the `i`-th bundled rate.
pub fn bundled_rate(i: usize) -> (r: (&'static str, &'static str, i64))
    requires
        i < BUNDLED_RATE_COUNT,
    ensures
        r.0@ == bundled_rate_spec(i as int).0,
        r.1@ == bundled_rate_spec(i as int).1,
        r.2 == bundled_rate_spec(i as int).2,
{
    match i {
        0 => ("USD", "EUR", 920_000),
        1 => ("USD", "GBP", 790_000),
        2 => ("USD", "JPY", 149_500_000),
        3 => ("USD", "MXN", 17_200_000),
        4 => ("USD", "CAD", 1_360_000),
        5 => ("USD", "AUD", 1_540_000),
        6 => ("USD", "CHF", 880_000),
        7 => ("USD", "CNY", 7_250_000),
        8 => ("USD", "BRL", 5_100_000),
        9 => ("USD", "INR", 83_500_000),
        10 => ("USD", "KRW", 1_330_000_000),
        11 => ("USD", "COP", 4_100_000_000),
        12 => ("USD", "ARS", 900_000_000),
        13 => ("USD", "PEN", 3_750_000),
        14 => ("USD", "CLP", 950_000_000),
        15 => ("EUR", "USD", 1_087_000),
        16 => ("GBP", "USD", 1_266_000),
        _ => ("MXN", "USD", 58_139),
    }
}

/// Whether `x` is the `i`-th bundled rate.
pub open spec fn is_bundled_rate(x: ExchangeRate, i: int) -> bool {
    &&& x.from_currency@ == bundled_rate_spec(i).0
    &&& x.to_currency@ == bundled_rate_spec(i).1
    &&& x.rate == bundled_rate_spec(i).2
    &&& x.source == RateSource::Bundled
}

/// A rate read from an external source: currencies as given, fixed-point rate.
#[derive(Debug, Clone)]
pub struct CachedRateInput {
    pub from: String,
    pub to: String,
    pub rate: i64,
}

/// Whether `x` is the cached rate stored for input `input`.
pub open spec fn is_cached_rate(x: ExchangeRate, input: CachedRateInput) -> bool {
    &&& x.from_currency@ == unicode_uppercase(input.from@)
    &&& x.to_currency@ == unicode_uppercase(input.to@)
    &&& x.rate == input.rate
    &&& x.source == RateSource::Cached
}

/// How fresh the rate for a currency pair is.
#[derive(Debug, Clone)]
pub struct RateFreshness {
    pub source: RateSource,
    pub fetched_at: Timestamp,
    pub age_seconds: i64,
}

/// Message of the error for a non-positive manual rate.
pub open spec fn positive_rate_message() -> Seq<char> {
    "Exchange rate must be positive"@
}

/// Message of the error for a currency pair with no rate.
pub open spec fn no_rate_message(from: Seq<char>, to: Seq<char>) -> Seq<char> {
    "No exchange rate found for "@ + from + " → "@ + to
}

/// Operations on exchange rates.
pub struct CurrencyUseCases<'a> {
    pub rate_repo: &'a mut InMemoryExchangeRateRepository,
}

impl<'a> CurrencyUseCases<'a> {
    /// Operations over the rates of `rate_repo`.
    pub fn new(rate_repo: &'a mut InMemoryExchangeRateRepository) -> (r: CurrencyUseCases<'a>)
        ensures
            *r.rate_repo == *old(rate_repo),
            *final(r.rate_repo) == *final(rate_repo),
    {
        CurrencyUseCases { rate_repo }
    }

    /// Stores the eighteen bundled rates (each fetched now), replacing earlier rates of the
    /// same pair and source, and returns how many were stored.
    pub fn seed_bundled_rates(&mut self) -> (r: Result<usize, DomainError>)
        requires
            old(self).rate_repo.wf(),
        ensures
            final(self).rate_repo.wf(),
            *final(final(self).rate_repo) == *final(old(self).rate_repo),
            r == Ok::<usize, DomainError>(BUNDLED_RATE_COUNT),
            exists|batch: Seq<ExchangeRate>| #![trigger batch.len()] {
                &&& batch.len() == BUNDLED_RATE_COUNT
                &&& forall|i: int| 0 <= i < batch.len() ==> #[trigger] is_bundled_rate(batch[i], i)
                &&& final(self).rate_repo@ == rows_saved_all(old(self).rate_repo@, batch)
            },
    {
        let mut rates: Vec<ExchangeRate> = Vec::new();
        let mut i: usize = 0;
        while i < BUNDLED_RATE_COUNT
            invariant
                i <= BUNDLED_RATE_COUNT,
                rates@.len() == i,
                forall|j: int| 0 <= j < i ==> #[trigger] is_bundled_rate(rates@[j], j),
            decreases BUNDLED_RATE_COUNT - i,
        {
            let (from, to, rate) = bundled_rate(i);
            rates.push(ExchangeRate {
                from_currency: from.to_string(),
                to_currency: to.to_string(),
                rate,
                source: RateSource::Bundled,
                fetched_at: Timestamp::now(),
            });
            i += 1;
        }
        let count = rates.len();
        self.rate_repo.save_batch(&rates)?;
        assert(rates@.len() == BUNDLED_RATE_COUNT);
        Ok(count)
    }

    /// Stores rates read from an external source as cached rates (currencies upper-cased,
    /// each fetched now), replacing earlier rates of the same pair and source, and returns
    /// how many were stored.
    pub fn store_cached_rates(&mut self, inputs: &Vec<CachedRateInput>) -> (r: Result<usize, DomainError>)
        requires
            old(self).rate_repo.wf(),
        ensures
            final(self).rate_repo.wf(),
            *final(final(self).rate_repo) == *final(old(self).rate_repo),
            r == Ok::<usize, DomainError>(inputs.len()),
            exists|batch: Seq<ExchangeRate>| #![trigger batch.len()] {
                &&& batch.len() == inputs@.len()
                &&& forall|i: int| 0 <= i < batch.len() ==> #[trigger] is_cached_rate(batch[i], inputs@[i])
                &&& final(self).rate_repo@ == rows_saved_all(old(self).rate_repo@, batch)
            },
    {
        let mut rates: Vec<ExchangeRate> = Vec::new();
        let mut i: usize = 0;
        while i < inputs.len()
            invariant
                i <= inputs@.len(),
                rates@.len() == i,
                forall|j: int| 0 <= j < i ==> #[trigger] is_cached_rate(rates@[j], inputs@[j]),
            decreases inputs@.len() - i,
        {
            let input = &inputs[i];
            rates.push(ExchangeRate {
                from_currency: uppercase(input.from.as_str()),
                to_currency: uppercase(input.to.as_str()),
                rate: input.rate,
                source: RateSource::Cached,
                fetched_at: Timestamp::now(),
            });
            i += 1;
        }
        let count = rates.len();
        self.rate_repo.save_batch(&rates)?;
        assert(rates@.len() == inputs@.len());
        Ok(count)
    }

    /// Stores a user override rate (currencies upper-cased, fetched now) replacing the
    /// earlier override for the pair; the fixed-point rate must be positive.
    pub fn set_manual_rate(&mut self, from_currency: &str, to_currency: &str, rate: i64) -> (r: Result<ExchangeRate, DomainError>)
        requires
            old(self).rate_repo.wf(),
        ensures
            final(self).rate_repo.wf(),
            *final(final(self).rate_repo) == *final(old(self).rate_repo),
            r is Ok <==> rate > 0,
            r matches Err(e) ==> e is Validation && e.message() == positive_rate_message()
                && final(self).rate_repo@ == old(self).rate_repo@,
            r matches Ok(x) ==> {
                &&& x.from_currency@ == unicode_uppercase(from_currency@)
                &&& x.to_currency@ == unicode_uppercase(to_currency@)
                &&& x.rate == rate
                &&& x.source == RateSource::UserOverride
                &&& final(self).rate_repo@ == rows_saved(old(self).rate_repo@, x)
            },
    {
        if rate <= 0 {
            return Err(validation("Exchange rate must be positive"));
        }
        let exchange_rate = ExchangeRate::new(from_currency.to_string(), to_currency.to_string(), rate, RateSource::UserOverride);
        self.rate_repo.save(&exchange_rate)?;
        Ok(exchange_rate)
    }

    /// Converts an amount in cents with the best rate for the pair (user override, then
    /// cached, then bundled; the identity rate for one currency), rounding toward zero.
    /// Fails when the pair has no rate.
    pub fn convert(&self, amount_cents: i64, from_currency: &str, to_currency: &str) -> (r: Result<ConversionResult, DomainError>)
        requires
            self.rate_repo.wf(),
        ensures
            ({
                let from = unicode_uppercase(from_currency@);
                let to = unicode_uppercase(to_currency@);
                let rows = old(self.rate_repo)@;
                &&& r is Err <==> from != to && pair_rates(rows, from, to).len() == 0
                &&& r matches Err(e) ==> e is NotFound && e.message() == no_rate_message(from, to)
                &&& r matches Ok(c) ==> {
                    &&& c.original_amount == amount_cents
                    &&& c.from_currency@ == from
                    &&& c.to_currency@ == to
                    &&& c.converted_amount == #[verifier::truncate] (converted(amount_cents, c.rate) as i64)
                    &&& from == to ==> c.rate == RATE_PRECISION && c.rate_source == RateSource::Bundled
                    &&& from != to ==> is_best_rate(rows, from, to, ExchangeRate {
                        from_currency: c.from_currency,
                        to_currency: c.to_currency,
                        rate: c.rate,
                        source: c.rate_source,
                        fetched_at: c.rate_fetched_at,
                    })
                }
            }),
    {
        let rate = match self.rate_repo.find_best_rate(from_currency, to_currency)? {
            Some(x) => x,
            None => {
                let mut m = "No exchange rate found for ".to_string();
                let from = uppercase(from_currency);
                let to = uppercase(to_currency);
                m.append(from.as_str());
                m.append(" → ");
                m.append(to.as_str());
                return Err(DomainError::NotFound(m));
            },
        };
        let amount = rate.convert(amount_cents);
        Ok(ConversionResult {
            original_amount: amount_cents,
            converted_amount: amount,
            from_currency: rate.from_currency.clone(),
            to_currency: rate.to_currency.clone(),
            rate: rate.rate,
            rate_source: rate.source,
            rate_fetched_at: rate.fetched_at,
        })
    }

    /// The source, fetch time and age in seconds (now) of the best rate for a pair, if any.
    pub fn get_rate_freshness(&self, from_currency: &str, to_currency: &str) -> (r: Result<Option<RateFreshness>, DomainError>)
        requires
            self.rate_repo.wf(),
        ensures
            ({
                let from = unicode_uppercase(from_currency@);
                let to = unicode_uppercase(to_currency@);
                let rows = old(self.rate_repo)@;
                &&& r is Ok
                &&& from == to ==> (r matches Ok(Some(f)) && f.source == RateSource::Bundled)
                &&& from != to ==> (r matches Ok(found) && (found is None <==> pair_rates(rows, from, to).len() == 0))
                &&& r matches Ok(Some(f)) ==> exists|now: Timestamp| #[trigger] now.unix() - f.fetched_at.unix() == f.age_seconds
                &&& from != to ==> (r matches Ok(Some(f)) ==> exists|x: ExchangeRate| is_best_rate(rows, from, to, x)
                    && x.source == f.source && x.fetched_at == f.fetched_at)
            }),
    {
        let rate = self.rate_repo.find_best_rate(from_currency, to_currency)?;
        match rate {
            Some(x) => {
                let now = Timestamp::now();
                let a = now.unix_seconds();
                let b = x.fetched_at.unix_seconds();
                Ok(Some(RateFreshness { source: x.source, fetched_at: x.fetched_at, age_seconds: a - b }))
            },
            None => Ok(None),
        }
    }

    /// The stored rates from a currency (upper-cased), by target currency then
    /// highest-ranked source first.
    pub fn list_rates(&self, from_currency: &str) -> (r: Result<Vec<ExchangeRate>, DomainError>)
        ensures
            r matches Ok(v) && v@ == rates_from(old(self.rate_repo)@, unicode_uppercase(from_currency@)),
    {
        self.rate_repo.find_by_from_currency(from_currency)
    }
}

} // verus!
