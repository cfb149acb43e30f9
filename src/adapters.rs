use vstd::prelude::*;
use crate::types::{pair_text, Exchange, Pair, PairFormat};

verus! {

/// The Binance feed: it subscribes to trades by the pair in small letters.
#[derive(Debug, Clone, Copy, PartialEq, Eq, Structural)]
pub struct BinanceAdapter;

/// The Bybit feed: it subscribes to trades by the pair in small letters.
#[derive(Debug, Clone, Copy, PartialEq, Eq, Structural)]
pub struct BybitAdapter;

/// The Coinbase feed: it subscribes to tickers by the pair in capitals with a dash.
#[derive(Debug, Clone, Copy, PartialEq, Eq, Structural)]
pub struct CoinbaseAdapter;

impl BinanceAdapter {
    /// The venue this feed reads.
    pub fn kind() -> (r: Exchange)
        ensures
            r == Exchange::Binance,
    {
        Exchange::Binance
    }

    /// How this venue spells a pair in a subscription.
    pub fn symbol(pair: Pair) -> (r: String)
        ensures
            r@ == pair_text(pair, PairFormat::Lower),
    {
        pair.format(PairFormat::Lower)
    }
}

impl BybitAdapter {
    /// The venue this feed reads.
    pub fn kind() -> (r: Exchange)
        ensures
            r == Exchange::Bybit,
    {
        Exchange::Bybit
    }

    /// How this venue spells a pair in a subscription.
    pub fn symbol(pair: Pair) -> (r: String)
        ensures
            r@ == pair_text(pair, PairFormat::Lower),
    {
        pair.format(PairFormat::Lower)
    }
}

impl CoinbaseAdapter {
    /// The venue this feed reads.
    pub fn kind() -> (r: Exchange)
        ensures
            r == Exchange::Coinbase,
    {
        Exchange::Coinbase
    }

    /// How this venue spells a pair in a subscription.
    pub fn symbol(pair: Pair) -> (r: String)
        ensures
            r@ == pair_text(pair, PairFormat::UpperWithDash),
    {
        pair.format(PairFormat::UpperWithDash)
    }
}

} // verus!
