use vstd::prelude::*;
use crate::decimal::{decimal_text, parse_units, parse_units_spec, units_to_decimal};
use crate::types::{
    exchange_from_name_spec, exchange_name, pair_from_name_spec, pair_name, Exchange, Pair,
    PriceTick, RawPriceTick, TickerError,
};

verus! {

/// What chrono's RFC 3339 rendering gives for a time in milliseconds.
pub uninterp spec fn rfc3339_of(millis: i64) -> Seq<char>;

/// The times, in milliseconds, that chrono can represent for certain: about
/// 253,000 years either side of 1970, within chrono's years of +-262,143.
pub open spec fn in_chrono_range(millis: int) -> bool {
    -8_000_000_000_000_000 <= millis <= 8_000_000_000_000_000
}

/// Relies on chrono's `DateTime::<Utc>::from_timestamp_millis`, which is
/// `None` only outside chrono's range of years, and on `DateTime::to_rfc3339`,
/// whose text depends on the time alone and which does not fail.
#[verifier::external_body]
fn rfc3339_from_millis(millis: i64) -> (r: Option<String>)
    ensures
        r matches Some(s) ==> s@ == rfc3339_of(millis),
        in_chrono_range(millis as int) ==> r is Some,
{
    chrono::DateTime::<chrono::Utc>::from_timestamp_millis(millis).map(|d| d.to_rfc3339())
}

impl PriceTick {
    /// Reads a stored sample back: venue and pair by name, price and size in
    /// units, time in milliseconds.
    pub fn try_from_db_record(
        exchange: String,
        symbol: String,
        price: u128,
        size: u128,
        timestamp: i64,
    ) -> (r: Result<PriceTick, TickerError>)
        ensures
            match r {
                Ok(t) => exchange_from_name_spec(exchange@) == Some(t.exchange)
                    && pair_from_name_spec(symbol@) == Some(t.symbol) && t.price == price
                    && t.size == size && t.timestamp == timestamp,
                Err(e) => (exchange_from_name_spec(exchange@) is None || pair_from_name_spec(
                    symbol@,
                ) is None) && e is RawEventParseError,
            },
    {
        let exchange = Exchange::try_from_name(exchange.as_str())?;
        let symbol = Pair::try_from_name(symbol.as_str())?;
        Ok(PriceTick { exchange, symbol, price, size, timestamp })
    }

    /// The five text fields of a stored sample: venue, pair, price, size and
    /// RFC 3339 time. Every time within [`in_chrono_range`] gives the fields;
    /// a time beyond chrono's range gives an error.
    pub fn into_strings(self) -> (r: Result<(String, String, String, String, String), TickerError>)
        ensures
            match r {
                Ok(f) => f.0@ == exchange_name(self.exchange) && f.1@ == pair_name(self.symbol)
                    && f.2@ == decimal_text(self.price as nat) && f.3@ == decimal_text(
                    self.size as nat,
                ) && f.4@ == rfc3339_of(self.timestamp),
                Err(e) => !in_chrono_range(self.timestamp as int) && e is RawEventParseError,
            },
            in_chrono_range(self.timestamp as int) ==> r is Ok,
    {
        let time = match rfc3339_from_millis(self.timestamp) {
            Some(t) => t,
            None => {
                return Err(
                    TickerError::RawEventParseError(String::from_str("Invalid timestamp")),
                );
            },
        };
        Ok(
            (
                String::from_str(self.exchange.name()),
                String::from_str(self.symbol.name()),
                units_to_decimal(self.price),
                units_to_decimal(self.size),
                time,
            ),
        )
    }
}

impl RawPriceTick {
    /// A trade from the decimal text of its price and size, as venues send
    /// them, and its time in milliseconds.
    pub fn try_from_fields(price: &str, size: &str, timestamp: i64) -> (r: Result<
        RawPriceTick,
        TickerError,
    >)
        ensures
            match r {
                Ok(t) => parse_units_spec(price@) == Some(t.price) && parse_units_spec(size@)
                    == Some(t.size) && t.timestamp == timestamp,
                Err(e) => (parse_units_spec(price@) is None || parse_units_spec(size@) is None)
                    && e is ParseDecimalError,
            },
    {
        let p = match parse_units(price) {
            Some(p) => p,
            None => {
                return Err(
                    TickerError::ParseDecimalError(String::from_str("invalid price: ").concat(price)),
                );
            },
        };
        let s = match parse_units(size) {
            Some(s) => s,
            None => {
                return Err(
                    TickerError::ParseDecimalError(String::from_str("invalid size: ").concat(size)),
                );
            },
        };
        Ok(RawPriceTick { price: p, size: s, timestamp })
    }
}

/// Relies on chrono's `Utc::now`: the current time, of which nothing is known.
#[verifier::external_body]
fn now_millis() -> (r: i64) {
    chrono::Utc::now().timestamp_millis()
}

/// The earliest time, in milliseconds, of the samples that a query for the
/// last `secs` seconds before `now` returns; `None` where it is out of range.
pub fn cutoff_millis(now: i64, secs: i64) -> (r: Option<i64>)
    ensures
        r == (if i64::MIN <= now - secs * 1000 <= i64::MAX {
            Some((now - secs * 1000) as i64)
        } else {
            None
        }),
{
    let c: i128 = (now as i128) - (secs as i128) * 1000;
    if i64::MIN as i128 <= c && c <= i64::MAX as i128 {
        Some(c as i64)
    } else {
        None
    }
}

/// The cutoff of a query, made now, for the samples of the last `secs`
/// seconds: the current time and the cutoff computed from it.
pub fn query_cutoff(secs: i64) -> (r: (i64, Option<i64>))
    ensures
        r.1 == (if i64::MIN <= r.0 - secs * 1000 <= i64::MAX {
            Some((r.0 - secs * 1000) as i64)
        } else {
            None
        }),
{
    let now = now_millis();
    (now, cutoff_millis(now, secs))
}

} // verus!
