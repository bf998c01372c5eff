//! Exchange rates between currencies, as fixed-point integers.
use vstd::prelude::*;
use crate::text::{text_eq, unicode_uppercase, uppercase};
use crate::time::Timestamp;

verus! {

/// Where an exchange rate came from; decides its precedence.
#[derive(Debug, Clone, Copy, PartialEq, Eq, Structural)]
pub enum RateSource {
    /// Compiled-in fallback rates (lowest priority).
    Bundled,
    /// Fetched from an API and cached locally.
    Cached,
    /// Set by the user (highest priority).
    UserOverride,
}

impl RateSource {
    /// The name of the source.
    pub open spec fn text(self) -> Seq<char> {
        match self {
            RateSource::Bundled => "bundled"@,
            RateSource::Cached => "cached"@,
            RateSource::UserOverride => "user_override"@,
        }
    }

    /// The source named by `s`, if any.
    pub open spec fn parse(s: Seq<char>) -> Option<RateSource> {
        if s == "bundled"@ {
            Some(RateSource::Bundled)
        } else if s == "cached"@ {
            Some(RateSource::Cached)
        } else if s == "user_override"@ {
            Some(RateSource::UserOverride)
        } else {
            None
        }
    }

    /// Precedence of the source: a higher number is preferred.
    pub open spec fn rank(self) -> u8 {
        match self {
            RateSource::Bundled => 0,
            RateSource::Cached => 1,
            RateSource::UserOverride => 2,
        }
    }

    /// Reads a source from its name.
    pub fn from_str(s: &str) -> (r: Option<RateSource>)
        ensures
            r == RateSource::parse(s@),
    {
        if text_eq(s, "bundled") {
            Some(RateSource::Bundled)
        } else if text_eq(s, "cached") {
            Some(RateSource::Cached)
        } else if text_eq(s, "user_override") {
            Some(RateSource::UserOverride)
        } else {
            None
        }
    }

    /// Precedence of the source for rate selection: a higher number is preferred.
    pub fn priority(&self) -> (r: u8)
        ensures
            r == self.rank(),
    {
        match self {
            RateSource::Bundled => 0,
            RateSource::Cached => 1,
            RateSource::UserOverride => 2,
        }
    }

    /// The name of the source.
    pub fn to_string(&self) -> (r: String)
        ensures
            r@ == self.text(),
    {
        match self {
            RateSource::Bundled => "bundled".to_string(),
            RateSource::Cached => "cached".to_string(),
            RateSource::UserOverride => "user_override".to_string(),
        }
    }
}

/// Reading back the name of a source gives the source.
pub proof fn lemma_rate_source_round_trip(s: RateSource)
    ensures
        RateSource::parse(s.text()) == Some(s),
{
    reveal_strlit("bundled");
    reveal_strlit("cached");
    reveal_strlit("user_override");
    assert("cached"@[0] != "bundled"@[0]);
    assert("user_override"@[0] != "bundled"@[0]);
    assert("user_override"@[0] != "cached"@[0]);
}

/// User overrides beat cached rates, which beat bundled rates; different sources never tie.
pub proof fn lemma_rate_source_precedence(a: RateSource, b: RateSource)
    ensures
        RateSource::UserOverride.rank() > RateSource::Cached.rank(),
        RateSource::Cached.rank() > RateSource::Bundled.rank(),
        a.rank() == b.rank() <==> a == b,
{
}

/// Fixed-point scale of exchange rates: 1_000_000 stands for 1.0 (six decimal places).
pub const RATE_PRECISION: i64 = 1_000_000;

/// Integer division rounding toward zero, for a positive divisor.
pub open spec fn div_toward_zero(a: int, d: int) -> int {
    if a >= 0 {
        a / d
    } else {
        -((-a) / d)
    }
}

/// `amount` (in cents) converted at fixed-point `rate`, rounded toward zero.
pub open spec fn converted(amount: i64, rate: i64) -> int {
    div_toward_zero(amount * rate, RATE_PRECISION as int)
}

/// An exchange rate between two currencies: `rate` is fixed-point with six decimals.
#[derive(Debug, Clone)]
pub struct ExchangeRate {
    pub from_currency: String,
    pub to_currency: String,
    pub rate: i64,
    pub source: RateSource,
    pub fetched_at: Timestamp,
}

impl ExchangeRate {
    /// A rate fetched now; the currency codes are upper-cased.
    pub fn new(from_currency: String, to_currency: String, rate: i64, source: RateSource) -> (r: ExchangeRate)
        ensures
            r.from_currency@ == unicode_uppercase(from_currency@),
            r.to_currency@ == unicode_uppercase(to_currency@),
            r.rate == rate,
            r.source == source,
    {
        ExchangeRate {
            from_currency: uppercase(from_currency.as_str()),
            to_currency: uppercase(to_currency.as_str()),
            rate,
            source,
            fetched_at: Timestamp::now(),
        }
    }

    /// Converts an amount in cents at this rate, rounding toward zero; a result beyond the
    /// range of `i64` wraps around.
    pub fn convert(&self, amount_cents: i64) -> (r: i64)
        ensures
            i64::MIN <= converted(amount_cents, self.rate) <= i64::MAX
                ==> r == converted(amount_cents, self.rate),
            r == #[verifier::truncate] (converted(amount_cents, self.rate) as i64),
    {
        let a = amount_cents as i128;
        let b = self.rate as i128;
        proof {
            assert(-0x4000_0000_0000_0000_0000_0000_0000_0000 <= a * b
                <= 0x4000_0000_0000_0000_0000_0000_0000_0000) by (nonlinear_arith)
                requires
                    -0x8000_0000_0000_0000 <= a <= 0x7fff_ffff_ffff_ffff,
                    -0x8000_0000_0000_0000 <= b <= 0x7fff_ffff_ffff_ffff,
            ;
        }
        let product: i128 = a * b;
        let q: i128 = if product >= 0 {
            product / (RATE_PRECISION as i128)
        } else {
            -((-product) / (RATE_PRECISION as i128))
        };
        #[verifier::truncate]
        (q as i64)
    }

    /// A copy of the rate.
    pub fn duplicate(&self) -> (r: ExchangeRate)
        ensures
            r == *self,
    {
        ExchangeRate {
            from_currency: self.from_currency.clone(),
            to_currency: self.to_currency.clone(),
            rate: self.rate,
            source: self.source,
            fetched_at: self.fetched_at,
        }
    }
}

/// The result of converting an amount between currencies.
#[derive(Debug, Clone)]
pub struct ConversionResult {
    pub original_amount: i64,
    pub converted_amount: i64,
    pub from_currency: String,
    pub to_currency: String,
    pub rate: i64,
    pub rate_source: RateSource,
    pub rate_fetched_at: Timestamp,
}

} // verus!
