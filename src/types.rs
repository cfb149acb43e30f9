use vstd::prelude::*;
use crate::text::{
    ascii_lower_char, ascii_upper_char, is_ascii_seq, lower_of, str_eq, to_lower, to_upper, upper_of,
};

verus! {

/// Units of a price or size that make up one whole coin or quote currency.
pub const UNITS_PER_WHOLE: u64 = 100_000_000;

/// A trading venue.
#[derive(Debug, Clone, Copy, PartialEq, Eq, Hash, Structural)]
pub enum Exchange {
    Binance,
    Bybit,
    Coinbase,
}

/// A traded instrument.
#[derive(Debug, Clone, Copy, PartialEq, Eq, Hash, Structural)]
pub enum Pair {
    BTCUSDT,
    ETHUSDT,
    SOLUSDT,
}

/// The way a venue spells a pair.
#[derive(Debug, Clone, Copy, PartialEq, Eq, Hash, Structural)]
pub enum PairFormat {
    Upper,
    Lower,
    UpperWithDash,
    LowerWithDash,
}

/// An error of the ingestion pipeline.
#[derive(Debug, Clone, PartialEq, Eq)]
pub enum TickerError {
    StreamError(String),
    RawEventParseError(String),
    ParseDecimalError(String),
    ChannelClosed,
    DatabaseError(String),
}

/// One trade as a venue reported it.
#[derive(Debug, Clone, Copy, PartialEq, Eq, Structural)]
pub struct RawPriceTick {
    /// Price in units of `10^-8`.
    pub price: u64,
    /// Size in units of `10^-8`.
    pub size: u64,
    /// Milliseconds since the Unix epoch.
    pub timestamp: i64,
}

/// What a venue stream delivers.
#[derive(Debug, Clone)]
pub enum Event {
    PriceTick(RawPriceTick),
    Error(String),
    Unsupported,
}

/// One aggregated sample: the volume-weighted average price of a window.
#[derive(Debug, Clone, Copy, PartialEq, Eq, Structural)]
pub struct PriceTick {
    pub exchange: Exchange,
    pub symbol: Pair,
    /// Price in units of `10^-8`.
    pub price: u128,
    /// Total size in units of `10^-8`.
    pub size: u128,
    /// Milliseconds since the Unix epoch: the end of the window.
    pub timestamp: i64,
}

pub open spec fn exchange_name(e: Exchange) -> Seq<char> {
    match e {
        Exchange::Binance => seq!['B', 'i', 'n', 'a', 'n', 'c', 'e'],
        Exchange::Bybit => seq!['B', 'y', 'b', 'i', 't'],
        Exchange::Coinbase => seq!['C', 'o', 'i', 'n', 'b', 'a', 's', 'e'],
    }
}

/// The base and quote currency of a pair, in capitals.
pub open spec fn pair_parts(p: Pair) -> (Seq<char>, Seq<char>) {
    match p {
        Pair::BTCUSDT => (seq!['B', 'T', 'C'], seq!['U', 'S', 'D', 'T']),
        Pair::ETHUSDT => (seq!['E', 'T', 'H'], seq!['U', 'S', 'D', 'T']),
        Pair::SOLUSDT => (seq!['S', 'O', 'L'], seq!['U', 'S', 'D', 'T']),
    }
}

pub open spec fn pair_name(p: Pair) -> Seq<char> {
    pair_parts(p).0 + pair_parts(p).1
}

pub open spec fn ascii_upper(s: Seq<char>) -> Seq<char> {
    s.map_values(|c: char| ascii_upper_char(c))
}

pub open spec fn ascii_lower(s: Seq<char>) -> Seq<char> {
    s.map_values(|c: char| ascii_lower_char(c))
}

/// The rendering of `left` and `right` in a format.
pub open spec fn format_spec(f: PairFormat, left: Seq<char>, right: Seq<char>) -> Seq<char> {
    match f {
        PairFormat::Upper => ascii_upper(left) + ascii_upper(right),
        PairFormat::Lower => ascii_lower(left) + ascii_lower(right),
        PairFormat::UpperWithDash => ascii_upper(left) + seq!['-'] + ascii_upper(right),
        PairFormat::LowerWithDash => ascii_lower(left) + seq!['-'] + ascii_lower(right),
    }
}

pub open spec fn pair_text(p: Pair, f: PairFormat) -> Seq<char> {
    format_spec(f, pair_parts(p).0, pair_parts(p).1)
}


/// The rendering of `left` and `right` in a format, by `str::to_uppercase`
/// and `str::to_lowercase`.
pub open spec fn format_named(f: PairFormat, left: Seq<char>, right: Seq<char>) -> Seq<char> {
    match f {
        PairFormat::Upper => upper_of(left) + upper_of(right),
        PairFormat::Lower => lower_of(left) + lower_of(right),
        PairFormat::UpperWithDash => upper_of(left) + seq!['-'] + upper_of(right),
        PairFormat::LowerWithDash => lower_of(left) + seq!['-'] + lower_of(right),
    }
}

/// The pair that `text` spells in format `f`, if any.
pub open spec fn parse_pair_spec(text: Seq<char>, f: PairFormat) -> Option<Pair> {
    if text == pair_text(Pair::BTCUSDT, f) {
        Some(Pair::BTCUSDT)
    } else if text == pair_text(Pair::ETHUSDT, f) {
        Some(Pair::ETHUSDT)
    } else if text == pair_text(Pair::SOLUSDT, f) {
        Some(Pair::SOLUSDT)
    } else {
        None
    }
}

/// The pair whose canonical name is `text`, if any.
pub open spec fn pair_from_name_spec(text: Seq<char>) -> Option<Pair> {
    if text == pair_name(Pair::BTCUSDT) {
        Some(Pair::BTCUSDT)
    } else if text == pair_name(Pair::ETHUSDT) {
        Some(Pair::ETHUSDT)
    } else if text == pair_name(Pair::SOLUSDT) {
        Some(Pair::SOLUSDT)
    } else {
        None
    }
}

/// The venue whose name is `text`, if any.
pub open spec fn exchange_from_name_spec(text: Seq<char>) -> Option<Exchange> {
    if text == exchange_name(Exchange::Binance) {
        Some(Exchange::Binance)
    } else if text == exchange_name(Exchange::Bybit) {
        Some(Exchange::Bybit)
    } else if text == exchange_name(Exchange::Coinbase) {
        Some(Exchange::Coinbase)
    } else {
        None
    }
}

/// The message of the error for a text that names no pair.
pub open spec fn unknown_pair_message(value: Seq<char>) -> Seq<char> {
    seq!['U', 'n', 'k', 'n', 'o', 'w', 'n', ' ', 'p', 'a', 'i', 'r', ':', ' '] + value
}

/// The message of the error for a text that names no venue.
pub open spec fn unknown_exchange_message(value: Seq<char>) -> Seq<char> {
    seq!['U', 'n', 'k', 'n', 'o', 'w', 'n', ' ', 'e', 'x', 'c', 'h', 'a', 'n', 'g', 'e', ':', ' ']
        + value
}

/// Rendering a pair in any format and reading the text back in the same
/// format gives the pair again.
pub proof fn lemma_pair_format_round_trip(p: Pair, f: PairFormat)
    ensures
        parse_pair_spec(pair_text(p, f), f) == Some(p),
{
    let t = pair_text(p, f);
    let b = pair_text(Pair::BTCUSDT, f);
    let e = pair_text(Pair::ETHUSDT, f);
    assert(t[0] == b[0] ==> p == Pair::BTCUSDT);
    assert(t[0] == e[0] ==> p == Pair::ETHUSDT || p == Pair::BTCUSDT);
}

/// Reading back the canonical name of a pair gives the pair again.
pub proof fn lemma_pair_name_round_trip(p: Pair)
    ensures
        pair_from_name_spec(pair_name(p)) == Some(p),
{
    let t = pair_name(p);
    assert(t[0] == pair_name(Pair::BTCUSDT)[0] ==> p == Pair::BTCUSDT);
    assert(t[0] == pair_name(Pair::ETHUSDT)[0] ==> p != Pair::SOLUSDT);
}

/// Reading back the name of a venue gives the venue again.
pub proof fn lemma_exchange_name_round_trip(e: Exchange)
    ensures
        exchange_from_name_spec(exchange_name(e)) == Some(e),
{
    let t = exchange_name(e);
    assert(t.len() == exchange_name(Exchange::Bybit).len() ==> e == Exchange::Bybit);
    assert(t[1] == exchange_name(Exchange::Binance)[1] ==> e == Exchange::Binance);
}

impl PairFormat {
    /// Renders `left` and `right` in this format: both in capitals or both
    /// in small letters, joined directly or by a dash.
    pub fn format(&self, left: &str, right: &str) -> (r: String)
        ensures
            r@ == format_named(*self, left@, right@),
            is_ascii_seq(left@) && is_ascii_seq(right@) ==> r@ == format_spec(
                *self,
                left@,
                right@,
            ),
    {
        proof {
            reveal_strlit("-");
        }
        match self {
            PairFormat::Upper => to_upper(left).concat(to_upper(right).as_str()),
            PairFormat::Lower => to_lower(left).concat(to_lower(right).as_str()),
            PairFormat::UpperWithDash => to_upper(left).concat("-").concat(
                to_upper(right).as_str(),
            ),
            PairFormat::LowerWithDash => to_lower(left).concat("-").concat(
                to_lower(right).as_str(),
            ),
        }
    }
}

impl Pair {
    /// Renders this pair as a venue spells it.
    pub fn format(&self, format: PairFormat) -> (r: String)
        ensures
            r@ == pair_text(*self, format),
    {
        proof {
            reveal_strlit("BTC");
            reveal_strlit("ETH");
            reveal_strlit("SOL");
            reveal_strlit("USDT");
        }
        match self {
            Pair::BTCUSDT => format.format("BTC", "USDT"),
            Pair::ETHUSDT => format.format("ETH", "USDT"),
            Pair::SOLUSDT => format.format("SOL", "USDT"),
        }
    }

    /// The canonical name of this pair, as stored.
    pub fn name(&self) -> (r: &'static str)
        ensures
            r@ == pair_name(*self),
    {
        proof {
            reveal_strlit("BTCUSDT");
            reveal_strlit("ETHUSDT");
            reveal_strlit("SOLUSDT");
        }
        match self {
            Pair::BTCUSDT => "BTCUSDT",
            Pair::ETHUSDT => "ETHUSDT",
            Pair::SOLUSDT => "SOLUSDT",
        }
    }

    /// The pair that `text` spells in `format`, if any.
    pub fn parse(text: &str, format: PairFormat) -> (r: Option<Pair>)
        ensures
            r == parse_pair_spec(text@, format),
    {
        if str_eq(text, Pair::BTCUSDT.format(format).as_str()) {
            Some(Pair::BTCUSDT)
        } else if str_eq(text, Pair::ETHUSDT.format(format).as_str()) {
            Some(Pair::ETHUSDT)
        } else if str_eq(text, Pair::SOLUSDT.format(format).as_str()) {
            Some(Pair::SOLUSDT)
        } else {
            None
        }
    }

    /// The pair whose canonical name is `value`.
    pub fn try_from_name(value: &str) -> (r: Result<Pair, TickerError>)
        ensures
            match r {
                Ok(p) => pair_from_name_spec(value@) == Some(p),
                Err(e) => pair_from_name_spec(value@) is None && (e matches TickerError::RawEventParseError(
                    m,
                ) && m@ == unknown_pair_message(value@)),
            },
    {
        proof {
            reveal_strlit("BTCUSDT");
            reveal_strlit("ETHUSDT");
            reveal_strlit("SOLUSDT");
            reveal_strlit("Unknown pair: ");
        }
        assert("BTCUSDT"@ =~= pair_name(Pair::BTCUSDT));
        assert("ETHUSDT"@ =~= pair_name(Pair::ETHUSDT));
        assert("SOLUSDT"@ =~= pair_name(Pair::SOLUSDT));
        if str_eq(value, "BTCUSDT") {
            Ok(Pair::BTCUSDT)
        } else if str_eq(value, "ETHUSDT") {
            Ok(Pair::ETHUSDT)
        } else if str_eq(value, "SOLUSDT") {
            Ok(Pair::SOLUSDT)
        } else {
            let message = String::from_str("Unknown pair: ").concat(value);
            assert(message@ =~= unknown_pair_message(value@));
            Err(TickerError::RawEventParseError(message))
        }
    }
}

impl Exchange {
    /// The name of this venue, as stored.
    pub fn name(&self) -> (r: &'static str)
        ensures
            r@ == exchange_name(*self),
    {
        proof {
            reveal_strlit("Binance");
            reveal_strlit("Bybit");
            reveal_strlit("Coinbase");
        }
        match self {
            Exchange::Binance => "Binance",
            Exchange::Bybit => "Bybit",
            Exchange::Coinbase => "Coinbase",
        }
    }

    /// The venue whose name is `value`.
    pub fn try_from_name(value: &str) -> (r: Result<Exchange, TickerError>)
        ensures
            match r {
                Ok(e) => exchange_from_name_spec(value@) == Some(e),
                Err(err) => exchange_from_name_spec(value@) is None && (
                err matches TickerError::RawEventParseError(m) && m@ == unknown_exchange_message(
                    value@,
                )),
            },
    {
        proof {
            reveal_strlit("Binance");
            reveal_strlit("Bybit");
            reveal_strlit("Coinbase");
            reveal_strlit("Unknown exchange: ");
        }
        assert("Binance"@ =~= exchange_name(Exchange::Binance));
        assert("Bybit"@ =~= exchange_name(Exchange::Bybit));
        assert("Coinbase"@ =~= exchange_name(Exchange::Coinbase));
        if str_eq(value, "Binance") {
            Ok(Exchange::Binance)
        } else if str_eq(value, "Bybit") {
            Ok(Exchange::Bybit)
        } else if str_eq(value, "Coinbase") {
            Ok(Exchange::Coinbase)
        } else {
            let message = String::from_str("Unknown exchange: ").concat(value);
            assert(message@ =~= unknown_exchange_message(value@));
            Err(TickerError::RawEventParseError(message))
        }
    }
}

} // verus!
