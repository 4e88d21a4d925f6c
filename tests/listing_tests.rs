use crypto_refdata::binance::{
    binance_records, BinanceExchangeInfo, BinanceFilter, BinanceInstrument,
};
use crypto_refdata::model::{
    default_symbols, Exchange, ProductType, ReferenceData, ResponseError, SymbolMode,
};
use crypto_refdata::okx::{okx_records, OkxInstrument, OkxResponse};

fn text(s: &str) -> Option<String> {
    Some(s.to_string())
}

fn filter(kind: &str, tick: Option<&str>, step: Option<&str>) -> BinanceFilter {
    BinanceFilter {
        filter_type: text(kind),
        tick_size: tick.map(|t| t.to_string()),
        step_size: step.map(|s| s.to_string()),
    }
}

fn instrument(symbol: &str, base: &str, quote: &str, tick: &str, step: &str) -> BinanceInstrument {
    BinanceInstrument {
        symbol: text(symbol),
        base_asset: text(base),
        quote_asset: text(quote),
        filters: Some(vec![
            filter("PRICE_FILTER", Some(tick), None),
            filter("PERCENT_PRICE", None, None),
            filter("LOT_SIZE", None, Some(step)),
        ]),
    }
}

fn okx(id: &str, base: &str, quote: &str, tick: &str, lot: &str) -> OkxInstrument {
    OkxInstrument {
        inst_id: text(id),
        base_ccy: text(base),
        quote_ccy: text(quote),
        tick_sz: text(tick),
        lot_sz: text(lot),
    }
}

fn record(
    product_type: ProductType,
    exchange: Exchange,
    symbol: &str,
    tick: &str,
    lot: &str,
) -> ReferenceData {
    ReferenceData {
        product_type,
        exchange,
        symbol: symbol.to_string(),
        tick_size: tick.to_string(),
        lot_size: lot.to_string(),
    }
}

#[test]
fn binance_spot_btcusdt_normalized() {
    let info = BinanceExchangeInfo {
        symbols: Some(vec![instrument("BTCUSDT", "BTC", "USDT", "0.01000000", "0.00001000")]),
    };
    let r = binance_records(&info, ProductType::Spot, &default_symbols(), SymbolMode::Normalized);
    assert_eq!(
        r,
        Ok(vec![record(ProductType::Spot, Exchange::Binance, "BTC/USDT-SPOT", "0.01", "0.00001")])
    );
}

#[test]
fn binance_spot_btcusdt_raw() {
    let info = BinanceExchangeInfo {
        symbols: Some(vec![instrument("BTCUSDT", "BTC", "USDT", "0.01000000", "0.00001000")]),
    };
    let r = binance_records(&info, ProductType::Spot, &default_symbols(), SymbolMode::Raw);
    assert_eq!(
        r,
        Ok(vec![record(ProductType::Spot, Exchange::Binance, "BTCUSDT", "0.01000000", "0.00001000")])
    );
}

#[test]
fn binance_keeps_only_listed_symbols_once() {
    let info = BinanceExchangeInfo {
        symbols: Some(vec![
            instrument("DOGEUSDT", "DOGE", "USDT", "0.00001", "1.0"),
            instrument("ETHUSDT", "ETH", "USDT", "0.01", "0.0001"),
            instrument("ETHBTC", "ETH", "BTC", "0.00001", "0.0001"),
            instrument("BTCUSDT", "BTC", "USDT", "0.01", "0.00001"),
            instrument("BTCEUR", "BTC", "EUR", "0.01", "0.00001"),
        ]),
    };
    let v = binance_records(&info, ProductType::Spot, &default_symbols(), SymbolMode::Raw).unwrap();
    let symbols: Vec<&str> = v.iter().map(|r| r.symbol.as_str()).collect();
    assert_eq!(symbols, vec!["ETHUSDT", "BTCUSDT"]);
    for r in &v {
        assert_eq!(r.product_type, ProductType::Spot);
        assert_eq!(r.exchange, Exchange::Binance);
    }
}

#[test]
fn binance_perp_label() {
    let info = BinanceExchangeInfo {
        symbols: Some(vec![instrument("SOLUSDT", "SOL", "USDT", "0.0100", "1")]),
    };
    let r = binance_records(&info, ProductType::Perp, &default_symbols(), SymbolMode::Normalized);
    assert_eq!(
        r,
        Ok(vec![record(ProductType::Perp, Exchange::Binance, "SOL/USDT-PERP", "0.01", "1")])
    );
}

#[test]
fn binance_last_filter_wins_and_missing_filter_is_zero() {
    let info = BinanceExchangeInfo {
        symbols: Some(vec![BinanceInstrument {
            symbol: text("BNBUSDT"),
            base_asset: text("BNB"),
            quote_asset: text("USDT"),
            filters: Some(vec![
                filter("PRICE_FILTER", Some("0.1"), None),
                filter("PRICE_FILTER", Some("0.0500"), None),
            ]),
        }]),
    };
    let norm = binance_records(&info, ProductType::Spot, &default_symbols(), SymbolMode::Normalized);
    assert_eq!(
        norm,
        Ok(vec![record(ProductType::Spot, Exchange::Binance, "BNB/USDT-SPOT", "0.05", "0")])
    );
    let raw = binance_records(&info, ProductType::Spot, &default_symbols(), SymbolMode::Raw);
    assert_eq!(
        raw,
        Ok(vec![record(ProductType::Spot, Exchange::Binance, "BNBUSDT", "0.0500", "")])
    );
}

#[test]
fn binance_missing_list_fails() {
    let info = BinanceExchangeInfo { symbols: None };
    let r = binance_records(&info, ProductType::Spot, &default_symbols(), SymbolMode::Normalized);
    assert_eq!(r, Err(ResponseError::MissingList));
}

#[test]
fn binance_missing_field_fails() {
    let mut bad = instrument("DOGEUSDT", "DOGE", "USDT", "0.00001", "1.0");
    bad.base_asset = None;
    let info = BinanceExchangeInfo {
        symbols: Some(vec![instrument("BTCUSDT", "BTC", "USDT", "0.01", "0.00001"), bad]),
    };
    let r = binance_records(&info, ProductType::Spot, &default_symbols(), SymbolMode::Normalized);
    assert_eq!(r, Err(ResponseError::IncompleteInstrument(1)));
}

#[test]
fn binance_filter_without_size_fails() {
    let mut bad = instrument("BTCUSDT", "BTC", "USDT", "0.01", "0.00001");
    bad.filters = Some(vec![filter("PRICE_FILTER", None, Some("0.5"))]);
    let info = BinanceExchangeInfo { symbols: Some(vec![bad]) };
    let r = binance_records(&info, ProductType::Spot, &default_symbols(), SymbolMode::Raw);
    assert_eq!(r, Err(ResponseError::IncompleteInstrument(0)));

    let mut untyped = instrument("BTCUSDT", "BTC", "USDT", "0.01", "0.00001");
    untyped.filters = Some(vec![BinanceFilter { filter_type: None, tick_size: None, step_size: None }]);
    let info = BinanceExchangeInfo {
        symbols: Some(vec![instrument("ETHUSDT", "ETH", "USDT", "0.01", "0.001"), untyped]),
    };
    let r = binance_records(&info, ProductType::Spot, &default_symbols(), SymbolMode::Raw);
    assert_eq!(r, Err(ResponseError::IncompleteInstrument(1)));

    let mut no_filters = instrument("BTCUSDT", "BTC", "USDT", "0.01", "0.00001");
    no_filters.filters = None;
    let info = BinanceExchangeInfo { symbols: Some(vec![no_filters]) };
    let r = binance_records(&info, ProductType::Perp, &default_symbols(), SymbolMode::Raw);
    assert_eq!(r, Err(ResponseError::IncompleteInstrument(0)));
}

#[test]
fn binance_empty_listing_gives_no_records() {
    let info = BinanceExchangeInfo { symbols: Some(vec![]) };
    let r = binance_records(&info, ProductType::Spot, &default_symbols(), SymbolMode::Normalized);
    assert_eq!(r, Ok(vec![]));
}

#[test]
fn okx_id_matches_after_hyphen_removal() {
    let resp = OkxResponse {
        data: Some(vec![
            okx("BTC-USDT", "BTC", "USDT", "0.1", "0.00000001"),
            okx("BTC-USD", "BTC", "USD", "0.1", "0.0001"),
        ]),
    };
    let r = okx_records(&resp, ProductType::Spot, &default_symbols(), SymbolMode::Normalized);
    assert_eq!(
        r,
        Ok(vec![record(ProductType::Spot, Exchange::Okx, "BTC/USDT-SPOT", "0.1", "0.00000001")])
    );
    let raw = okx_records(&resp, ProductType::Spot, &default_symbols(), SymbolMode::Raw);
    assert_eq!(
        raw,
        Ok(vec![record(ProductType::Spot, Exchange::Okx, "BTC-USDT", "0.1", "0.00000001")])
    );
}

#[test]
fn okx_swap_keeps_spot_label() {
    let resp = OkxResponse {
        data: Some(vec![okx("ETH-USDT-SWAP", "", "", "0.01", "0.1"), okx("ETH-USDT", "ETH", "USDT", "0.010", "1.000")]),
    };
    let r = okx_records(&resp, ProductType::Perp, &default_symbols(), SymbolMode::Normalized);
    assert_eq!(
        r,
        Ok(vec![record(ProductType::Perp, Exchange::Okx, "ETH/USDT-SPOT", "0.01", "1")])
    );
}

#[test]
fn okx_missing_list_fails() {
    let resp = OkxResponse { data: None };
    let r = okx_records(&resp, ProductType::Perp, &default_symbols(), SymbolMode::Raw);
    assert_eq!(r, Err(ResponseError::MissingList));
}

#[test]
fn okx_missing_field_fails() {
    let mut bad = okx("LINK-USDT", "LINK", "USDT", "0.001", "0.01");
    bad.lot_sz = None;
    let resp = OkxResponse {
        data: Some(vec![okx("BTC-USDT", "BTC", "USDT", "0.1", "0.00000001"), okx("XRP-USDT", "XRP", "USDT", "0.0001", "1"), bad]),
    };
    let r = okx_records(&resp, ProductType::Spot, &default_symbols(), SymbolMode::Normalized);
    assert_eq!(r, Err(ResponseError::IncompleteInstrument(2)));
}
