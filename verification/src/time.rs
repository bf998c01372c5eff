//! Points in time as whole seconds since the Unix epoch (UTC), and the
//! calendar questions the library asks of them.
use vstd::prelude::*;

verus! {

/// Earliest instant a UTC date-time can hold (January 1st of year -262143, midnight).
pub const MIN_UNIX_SECONDS: i64 = -8_334_601_228_800;

/// Latest whole second a UTC date-time can hold (December 31st of year 262142, 23:59:59).
pub const MAX_UNIX_SECONDS: i64 = 8_210_266_876_799;

/// Seconds in one day.
pub const SECONDS_PER_DAY: i64 = 86_400;

/// Whether `secs` seconds after the epoch is a representable UTC date-time.
pub open spec fn representable(secs: int) -> bool {
    MIN_UNIX_SECONDS <= secs <= MAX_UNIX_SECONDS
}

/// Calendar year of the UTC date at `secs` seconds after the epoch.
pub uninterp spec fn utc_year(secs: i64) -> i32;

/// Calendar month (1 to 12) of the UTC date at `secs` seconds after the epoch.
pub uninterp spec fn utc_month(secs: i64) -> u32;

/// The instant `months` calendar months after `secs`, at the same time of day, on the same
/// day of the month or, where the resulting month is shorter, on its last day; `None` when
/// that instant is out of range.
pub uninterp spec fn utc_plus_months(secs: i64, months: u32) -> Option<i64>;

/// The whole seconds since the epoch of the instant that the RFC 3339 text `text` denotes
/// (a fraction of a second dropped), when `text` is RFC 3339 date-time text.
pub uninterp spec fn rfc3339_seconds(text: Seq<char>) -> Option<i64>;

/// The UTC date at `secs` seconds after the epoch written as `YYYY-MM-DD`.
pub uninterp spec fn utc_date_text(secs: i64) -> Seq<char>;

/// An instant in UTC, with second precision, always a representable date-time.
#[derive(Clone, Copy, Debug, PartialEq, Eq, Structural)]
pub struct Timestamp {
    secs: i64,
}

/// The seconds after the epoch of an optional instant, matched by shape.
pub open spec fn same_instant(t: Option<Timestamp>, secs: Option<i64>) -> bool {
    match (t, secs) {
        (Some(t), Some(s)) => t.unix() == s,
        (None, None) => true,
        _ => false,
    }
}

impl Timestamp {
    #[verifier::type_invariant]
    spec fn in_range(self) -> bool {
        representable(self.secs as int)
    }

    /// Seconds since the Unix epoch.
    pub closed spec fn unix(self) -> i64 {
        self.secs
    }

    /// The instant `secs` seconds after the epoch.
    pub closed spec fn instant(secs: i64) -> Timestamp {
        Timestamp { secs }
    }

    /// An instant is the instant of its seconds after the epoch.
    pub proof fn lemma_instant(t: Timestamp, secs: i64)
        ensures
            Timestamp::instant(secs).unix() == secs,
            Timestamp::instant(t.unix()) == t,
    {
    }

    /// The instant `secs` seconds after the epoch, if it is representable.
    pub fn from_unix(secs: i64) -> (r: Option<Timestamp>)
        ensures
            r is Some <==> representable(secs as int),
            r matches Some(t) ==> t.unix() == secs,
    {
        if MIN_UNIX_SECONDS <= secs && secs <= MAX_UNIX_SECONDS {
            Some(Timestamp { secs })
        } else {
            None
        }
    }

    /// Seconds since the Unix epoch.
    pub fn unix_seconds(&self) -> (r: i64)
        ensures
            r == self.unix(),
            representable(r as int),
    {
        proof {
            use_type_invariant(self);
        }
        self.secs
    }

    /// The current instant, read from the system clock through `chrono::Utc::now` and
    /// truncated to whole seconds. Claimed of `chrono`: the reading is a representable
    /// date-time (it lies within `chrono`'s range, which is the range of this type);
    /// nothing is claimed of which instant it is.
    #[verifier::external_body]
    pub(crate) fn now() -> (r: Timestamp) {
        Timestamp { secs: chrono::Utc::now().timestamp() }
    }

    /// This instant moved by `delta` seconds, if the result is representable.
    pub fn checked_add_seconds(&self, delta: i64) -> (r: Option<Timestamp>)
        ensures
            r is Some <==> representable(self.unix() + delta),
            r matches Some(t) ==> t.unix() == self.unix() + delta,
    {
        let s = self.unix_seconds();
        if delta > 0 && s > MAX_UNIX_SECONDS - delta {
            None
        } else if delta < 0 && s < MIN_UNIX_SECONDS - delta {
            None
        } else {
            Timestamp::from_unix(s + delta)
        }
    }

    /// Whether this instant is strictly earlier than `other`.
    pub fn is_before(&self, other: &Timestamp) -> (r: bool)
        ensures
            r == (self.unix() < other.unix()),
    {
        self.unix_seconds() < other.unix_seconds()
    }

    /// Whether this instant is strictly later than `other`.
    pub fn is_after(&self, other: &Timestamp) -> (r: bool)
        ensures
            r == (self.unix() > other.unix()),
    {
        self.unix_seconds() > other.unix_seconds()
    }

    /// Calendar year of this instant's UTC date, through `chrono`'s `Datelike::year`.
    /// Claimed: the result is the named `utc_year` of the instant, within `chrono`'s
    /// year range.
    #[verifier::external_body]
    pub(crate) fn year(&self) -> (r: i32)
        ensures
            r == utc_year(self.unix()),
            -262143 <= r <= 262142,
    {
        chrono::Datelike::year(&chrono::DateTime::from_timestamp(self.secs, 0).unwrap())
    }

    /// Calendar month of this instant's UTC date, through `chrono`'s `Datelike::month`.
    /// Claimed: the result is the named `utc_month` of the instant, from 1 to 12.
    #[verifier::external_body]
    pub(crate) fn month(&self) -> (r: u32)
        ensures
            r == utc_month(self.unix()),
            1 <= r <= 12,
    {
        chrono::Datelike::month(&chrono::DateTime::from_timestamp(self.secs, 0).unwrap())
    }

    /// The same time of day `months` calendar months later, through `chrono`'s
    /// `DateTime::checked_add_months`, which keeps the day of the month or takes the last
    /// day of a shorter resulting month, and gives `None` only when the result is out of
    /// range. Claimed: the result is the named `utc_plus_months` of the instant and the
    /// count; for one to twelve months a result is at least 28 and at most 31 days per
    /// month later (a month has 28 to 31 days, and falling back to a shorter month's last
    /// day still lands on its 28th day or later), so a result exists whenever the instant
    /// 31 days per month later is representable.
    #[verifier::external_body]
    pub(crate) fn plus_months(&self, months: u32) -> (r: Option<Timestamp>)
        ensures
            same_instant(r, utc_plus_months(self.unix(), months)),
            1 <= months <= 12 && representable(self.unix() + 31 * months * SECONDS_PER_DAY) ==> r is Some,
            1 <= months <= 12 ==> (r matches Some(t) ==> self.unix() + 28 * months * SECONDS_PER_DAY <= t.unix()
                && t.unix() <= self.unix() + 31 * months * SECONDS_PER_DAY),
    {
        chrono::DateTime::from_timestamp(self.secs, 0)
            .unwrap()
            .checked_add_months(chrono::Months::new(months))
            .map(|d| Timestamp { secs: d.timestamp() })
    }

    /// This instant's UTC date as `YYYY-MM-DD`, through `chrono`'s `DateTime::format`.
    /// Claimed: the text is the named `utc_date_text` of the instant.
    #[verifier::external_body]
    pub(crate) fn date_text(&self) -> (r: String)
        ensures
            r@ == utc_date_text(self.unix()),
    {
        chrono::DateTime::from_timestamp(self.secs, 0).unwrap().format("%Y-%m-%d").to_string()
    }
}

/// Reads RFC 3339 date-time text as whole seconds since the epoch, through `chrono`'s
/// `DateTime::parse_from_rfc3339` and `timestamp`. Claimed: the result is the named
/// `rfc3339_seconds` of the text.
#[verifier::external_body]
fn rfc3339_seconds_of(text: &str) -> (r: Option<i64>)
    ensures
        r == rfc3339_seconds(text@),
{
    match chrono::DateTime::parse_from_rfc3339(text) {
        Ok(d) => Some(d.timestamp()),
        Err(_) => None,
    }
}

/// The instant that RFC 3339 text denotes, when it is representable.
pub open spec fn rfc3339_instant(text: Seq<char>) -> Option<Timestamp> {
    match rfc3339_seconds(text) {
        Some(s) => if representable(s as int) { Some(Timestamp::instant(s)) } else { None },
        None => None,
    }
}

/// The instant (in whole seconds) that the RFC 3339 text `text` denotes; `None` when the
/// text is not RFC 3339 date-time text or the instant is out of range.
pub fn parse_timestamp(text: &str) -> (r: Option<Timestamp>)
    ensures
        r == rfc3339_instant(text@),
{
    match rfc3339_seconds_of(text) {
        Some(s) => {
            let t = Timestamp::from_unix(s);
            proof {
                if let Some(x) = t {
                    Timestamp::lemma_instant(x, s);
                }
            }
            t
        },
        None => None,
    }
}

} // verus!

verus! {

/// The instant one calendar month after `secs` (same time of day; the same day, or the
/// last day of a shorter month), when it is in range.
pub open spec fn month_after(secs: i64) -> Option<i64> {
    utc_plus_months(secs, 1)
}

/// The instant three calendar months after `secs`, as for `month_after`.
pub open spec fn quarter_after(secs: i64) -> Option<i64> {
    utc_plus_months(secs, 3)
}

/// The instant twelve calendar months after `secs` (29 February goes to 28 February).
pub open spec fn year_after(secs: i64) -> Option<i64> {
    utc_plus_months(secs, 12)
}

/// Whether `later` comes after `secs` by at most `days` days.
pub open spec fn within_days(secs: i64, later: i64, days: int) -> bool {
    secs < later && later <= secs + days * SECONDS_PER_DAY
}

/// The instant `days` days after `secs`, when it is representable.
pub open spec fn days_after(secs: i64, days: int) -> Option<i64> {
    if representable(secs + days * SECONDS_PER_DAY) {
        Some((secs + days * SECONDS_PER_DAY) as i64)
    } else {
        None
    }
}

impl Timestamp {
    /// The same time of day one calendar month later: the same day, or the last day of a
    /// shorter month. `None` only near the end of the representable range.
    pub fn next_month(&self) -> (r: Option<Timestamp>)
        ensures
            same_instant(r, month_after(self.unix())),
            representable(self.unix() + 31 * SECONDS_PER_DAY) ==> r is Some,
            r matches Some(t) ==> within_days(self.unix(), t.unix(), 31)
                && self.unix() + 28 * SECONDS_PER_DAY <= t.unix(),
    {
        self.plus_months(1)
    }

    /// The same time of day three calendar months later, as for `next_month`.
    pub fn next_quarter(&self) -> (r: Option<Timestamp>)
        ensures
            same_instant(r, quarter_after(self.unix())),
            representable(self.unix() + 93 * SECONDS_PER_DAY) ==> r is Some,
            r matches Some(t) ==> within_days(self.unix(), t.unix(), 93)
                && self.unix() + 84 * SECONDS_PER_DAY <= t.unix(),
    {
        self.plus_months(3)
    }

    /// The same time of day twelve calendar months later, as for `next_month`.
    pub fn next_year(&self) -> (r: Option<Timestamp>)
        ensures
            same_instant(r, year_after(self.unix())),
            representable(self.unix() + 372 * SECONDS_PER_DAY) ==> r is Some,
            r matches Some(t) ==> within_days(self.unix(), t.unix(), 372)
                && self.unix() + 336 * SECONDS_PER_DAY <= t.unix(),
    {
        self.plus_months(12)
    }

    /// The instant `days` whole days later, when it is representable.
    pub fn plus_days(&self, days: i64) -> (r: Option<Timestamp>)
        ensures
            same_instant(r, days_after(self.unix(), days as int)),
    {
        match days.checked_mul(SECONDS_PER_DAY) {
            Some(delta) => self.checked_add_seconds(delta),
            None => {
                proof {
                    use_type_invariant(self);
                    let total = days * SECONDS_PER_DAY;
                    assert(total < i64::MIN || total > i64::MAX);
                    assert(!representable(self.unix() + total));
                }
                None
            },
        }
    }
}

} // verus!
