use ticker_core::adapters::{BinanceAdapter, BybitAdapter, CoinbaseAdapter};
use ticker_core::decimal::units_to_decimal;
use ticker_core::types::{Exchange, Pair, PairFormat, PriceTick, TickerError};

const PAIRS: [Pair; 3] = [Pair::BTCUSDT, Pair::ETHUSDT, Pair::SOLUSDT];
const FORMATS: [PairFormat; 4] = [
    PairFormat::Upper,
    PairFormat::Lower,
    PairFormat::UpperWithDash,
    PairFormat::LowerWithDash,
];

#[test]
fn pair_formats() {
    assert_eq!(Pair::BTCUSDT.format(PairFormat::Upper), "BTCUSDT");
    assert_eq!(Pair::ETHUSDT.format(PairFormat::Lower), "ethusdt");
    assert_eq!(Pair::SOLUSDT.format(PairFormat::UpperWithDash), "SOL-USDT");
    assert_eq!(Pair::BTCUSDT.format(PairFormat::LowerWithDash), "btc-usdt");
}

#[test]
fn pair_format_of_parts() {
    assert_eq!(PairFormat::Upper.format("btc", "usdt"), "BTCUSDT");
    assert_eq!(PairFormat::Lower.format("Eth", "USDT"), "ethusdt");
    assert_eq!(PairFormat::UpperWithDash.format("sol", "usd"), "SOL-USD");
    assert_eq!(PairFormat::LowerWithDash.format("", ""), "-");
}

#[test]
fn pair_format_round_trips() {
    for p in PAIRS {
        for f in FORMATS {
            assert_eq!(Pair::parse(&p.format(f), f), Some(p));
        }
    }
}

#[test]
fn pair_parse_rejects_other_text() {
    assert_eq!(Pair::parse("btcusdt", PairFormat::Upper), None);
    assert_eq!(Pair::parse("BTC-USDT", PairFormat::Upper), None);
    assert_eq!(Pair::parse("", PairFormat::Lower), None);
}

#[test]
fn names_round_trip() {
    for p in PAIRS {
        assert_eq!(Pair::try_from_name(p.name()), Ok(p));
    }
    for e in [Exchange::Binance, Exchange::Bybit, Exchange::Coinbase] {
        assert_eq!(Exchange::try_from_name(e.name()), Ok(e));
    }
    assert_eq!(Exchange::Coinbase.name(), "Coinbase");
    assert_eq!(Pair::ETHUSDT.name(), "ETHUSDT");
}

#[test]
fn unknown_name_messages() {
    assert_eq!(
        Exchange::try_from_name("Kraken"),
        Err(TickerError::RawEventParseError("Unknown exchange: Kraken".to_string()))
    );
    assert_eq!(
        Pair::try_from_name("XRPUSDT"),
        Err(TickerError::RawEventParseError("Unknown pair: XRPUSDT".to_string()))
    );
}

#[test]
fn record_strings_at_range_edges() {
    for timestamp in [-8_000_000_000_000_000i64, 0, 8_000_000_000_000_000] {
        let t = PriceTick { exchange: Exchange::Bybit, symbol: Pair::ETHUSDT, price: 1, size: 1, timestamp };
        assert!(t.into_strings().is_ok());
    }
    let t = PriceTick { exchange: Exchange::Bybit, symbol: Pair::ETHUSDT, price: 0, size: 0, timestamp: 0 };
    let (_, _, price, size, ts) = t.into_strings().unwrap();
    assert_eq!((price.as_str(), size.as_str(), ts.as_str()), ("0", "0", "1970-01-01T00:00:00+00:00"));
}

#[test]
fn unknown_names_are_errors() {
    assert!(matches!(
        Exchange::try_from_name("Kraken"),
        Err(TickerError::RawEventParseError(_))
    ));
    assert!(matches!(
        Pair::try_from_name("btcusdt"),
        Err(TickerError::RawEventParseError(_))
    ));
}

#[test]
fn decimal_rendering() {
    assert_eq!(units_to_decimal(0), "0");
    assert_eq!(units_to_decimal(10_150_000_000), "101.5");
    assert_eq!(units_to_decimal(200_000_000), "2");
    assert_eq!(units_to_decimal(1), "0.00000001");
    assert_eq!(units_to_decimal(1_234_567_890_123), "12345.67890123");
}

#[test]
fn db_record_round_trip() {
    let t = PriceTick::try_from_db_record("Bybit".to_string(), "SOLUSDT".to_string(), 5, 6, 7).unwrap();
    assert_eq!(
        t,
        PriceTick { exchange: Exchange::Bybit, symbol: Pair::SOLUSDT, price: 5, size: 6, timestamp: 7 }
    );
    assert!(PriceTick::try_from_db_record("Bybit".to_string(), "XRPUSDT".to_string(), 5, 6, 7).is_err());
    assert!(PriceTick::try_from_db_record("Nope".to_string(), "SOLUSDT".to_string(), 5, 6, 7).is_err());
}

#[test]
fn record_strings() {
    let t = PriceTick {
        exchange: Exchange::Coinbase,
        symbol: Pair::BTCUSDT,
        price: 10_150_000_000,
        size: 400_000_000,
        timestamp: 1_700_000_000_123,
    };
    let (e, p, price, size, ts) = t.into_strings().unwrap();
    assert_eq!(e, "Coinbase");
    assert_eq!(p, "BTCUSDT");
    assert_eq!(price, "101.5");
    assert_eq!(size, "4");
    assert_eq!(ts, "2023-11-14T22:13:20.123+00:00");
}

#[test]
fn record_strings_out_of_range_time() {
    let t = PriceTick {
        exchange: Exchange::Coinbase,
        symbol: Pair::BTCUSDT,
        price: 1,
        size: 1,
        timestamp: i64::MAX,
    };
    assert!(matches!(t.into_strings(), Err(TickerError::RawEventParseError(_))));
}

#[test]
fn venues_spell_pairs_their_own_way() {
    assert_eq!(BinanceAdapter::kind(), Exchange::Binance);
    assert_eq!(BybitAdapter::kind(), Exchange::Bybit);
    assert_eq!(CoinbaseAdapter::kind(), Exchange::Coinbase);
    assert_eq!(BinanceAdapter::symbol(Pair::SOLUSDT), "solusdt");
    assert_eq!(BybitAdapter::symbol(Pair::ETHUSDT), "ethusdt");
    assert_eq!(CoinbaseAdapter::symbol(Pair::BTCUSDT), "BTC-USDT");
}
