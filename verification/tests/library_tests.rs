// Tests of the request shaping, reply normalisation and routing.

use crypto_market_connector::app::{AppState, Config as ServerConfig};
use crypto_market_connector::services::binance::binance_client::{
    depth_limit, depth_order_book, depth_symbol, Config as BinanceConfig,
};
use crypto_market_connector::services::coinbase::coinbase_client::{
    product_book_error, product_book_query, product_order_book, Config as CoinbaseConfig,
    PriceLevel,
};
use crypto_market_connector::services::crypto_com::crypto_com_client::{
    parse_error, reply_order_book, Config as CryptoComConfig, CryptoComGetBookData,
    CryptoComGetBookResult, CryptoComGetOrderBookResponse,
};
use crypto_market_connector::services::provider::{
    all_provider_requests, route_order_book_request, Clients,
};
use crypto_market_connector::services::types::{
    collect_book_results, levels_from_rows, parse_environment, Environment, OrderBookRequest,
    OrderBookResponse, ProviderBookRequest, ProviderBookResult, ProviderError,
};
use crypto_market_connector::text::{i32_to_decimal, trim_trailing_slashes, u32_to_decimal};
use std::sync::Arc;

fn strings(items: &[&str]) -> Vec<String> {
    items.iter().map(|s| s.to_string()).collect()
}

fn pair(price: &str, quantity: &str) -> (String, String) {
    (price.to_string(), quantity.to_string())
}

fn book_request(base: &str, quote: &str, depth: Option<u32>) -> ProviderBookRequest {
    ProviderBookRequest { base: base.to_string(), quote: quote.to_string(), depth }
}

fn sample_book(provider: &str) -> OrderBookResponse {
    OrderBookResponse {
        provider: provider.to_string(),
        pair: "BTCUSDT".to_string(),
        bids: vec![pair("1", "2")],
        asks: vec![],
    }
}

#[test]
fn decimal_rendering() {
    assert_eq!(u32_to_decimal(0), "0");
    assert_eq!(u32_to_decimal(7), "7");
    assert_eq!(u32_to_decimal(205), "205");
    assert_eq!(u32_to_decimal(u32::MAX), u32::MAX.to_string());
    assert_eq!(i32_to_decimal(0), "0");
    assert_eq!(i32_to_decimal(-40), "-40");
    assert_eq!(i32_to_decimal(10001), "10001");
    assert_eq!(i32_to_decimal(i32::MIN), i32::MIN.to_string());
    assert_eq!(i32_to_decimal(i32::MAX), i32::MAX.to_string());
}

#[test]
fn trailing_slashes_are_trimmed() {
    assert_eq!(trim_trailing_slashes("https://api.crypto.com/v2//"), "https://api.crypto.com/v2");
    assert_eq!(trim_trailing_slashes("https://api.crypto.com/v2"), "https://api.crypto.com/v2");
    assert_eq!(trim_trailing_slashes("///"), "");
    assert_eq!(trim_trailing_slashes(""), "");
    assert_eq!(trim_trailing_slashes("a/b"), "a/b");
}

#[test]
fn environment_names() {
    assert_eq!(parse_environment(&"testnet".to_string()), Some(Environment::Testnet));
    assert_eq!(parse_environment(&"production".to_string()), Some(Environment::Production));
    assert_eq!(parse_environment(&"staging".to_string()), None);
    assert_eq!(parse_environment(&"Testnet".to_string()), None);
}

#[test]
fn default_settings() {
    assert_eq!(ServerConfig::default_host(), "127.0.0.1");
    assert_eq!(ServerConfig::default_port(), 8080);
    assert_eq!(BinanceConfig::default_env(), "testnet");
    assert_eq!(CoinbaseConfig::default_env(), "testnet");
    assert_eq!(CryptoComConfig::default_env(), "testnet");
}

#[test]
fn binance_environment_selection() {
    let mut config = BinanceConfig {
        api_key: "k".to_string(),
        api_secret: "s".to_string(),
        environment: "production".to_string(),
    };
    assert_eq!(config.environment_kind(), Some(Environment::Production));
    config.environment = "testnet".to_string();
    assert_eq!(config.environment_kind(), Some(Environment::Testnet));
    config.environment = "mainnet".to_string();
    assert_eq!(config.environment_kind(), None);
}

#[test]
fn coinbase_sandbox_selection() {
    assert_eq!(CoinbaseConfig { environment: "testnet".to_string() }.sandbox(), Some(true));
    assert_eq!(CoinbaseConfig { environment: "production".to_string() }.sandbox(), Some(false));
    assert_eq!(CoinbaseConfig { environment: "live".to_string() }.sandbox(), None);
}

#[test]
fn pair_formats_per_provider() {
    let request = book_request("BTC", "USDT", None);
    assert_eq!(depth_symbol(&request), "BTCUSDT");
    assert_eq!(product_book_query(&book_request("BTC", "USD", None)).product_id, "BTC-USD");
    let config = CryptoComConfig {
        api_key: "k".to_string(),
        api_secret: "s".to_string(),
        environment: "testnet".to_string(),
        api_url: "https://api.crypto.com/exchange/v1".to_string(),
    };
    assert_eq!(config.book_request(&request).pair, "BTC_USDT");
}

#[test]
fn binance_depth_limits() {
    assert_eq!(depth_limit(None), None);
    assert_eq!(depth_limit(Some(10)), Some(10));
    assert_eq!(depth_limit(Some(i32::MAX as u32)), Some(i32::MAX));
    assert_eq!(depth_limit(Some(u32::MAX)), Some(-1));
    assert_eq!(depth_limit(Some(1u32 << 31)), Some(i32::MIN));
}

#[test]
fn rows_become_levels() {
    let rows = vec![
        strings(&["42500.00", "1.5"]),
        strings(&["bad"]),
        strings(&[]),
        strings(&["42499.50", "2.0", "extra"]),
    ];
    let levels = levels_from_rows(&rows);
    assert_eq!(levels, vec![pair("42500.00", "1.5"), pair("42499.50", "2.0")]);
    assert!(levels_from_rows(&vec![]).is_empty());
}

#[test]
fn binance_depth_book() {
    let bids = Some(vec![strings(&["42500.123456789", "1.123456"]), strings(&["x"])]);
    let book = depth_order_book(&book_request("BTC", "USDT", Some(5)), bids, None);
    assert_eq!(book.provider, "binance");
    assert_eq!(book.pair, "BTCUSDT");
    assert_eq!(book.bids, vec![pair("42500.123456789", "1.123456")]);
    assert!(book.asks.is_empty());
}

#[test]
fn coinbase_query_and_book() {
    let query = product_book_query(&book_request("ETH", "EUR", Some(25)));
    assert_eq!(query.product_id, "ETH-EUR");
    assert_eq!(query.limit, Some(25));
    assert_eq!(product_book_query(&book_request("ETH", "EUR", None)).limit, None);

    let bids = vec![
        PriceLevel { price: "2500.00".to_string(), size: "10.0".to_string() },
        PriceLevel { price: "2499.50".to_string(), size: "20.0".to_string() },
    ];
    let asks = vec![PriceLevel { price: "2510.00".to_string(), size: "5.0".to_string() }];
    let book = product_order_book(&book_request("ETH", "EUR", None), &bids, &asks);
    assert_eq!(book.provider, "coinbase");
    assert_eq!(book.pair, "ETH-EUR");
    assert_eq!(book.bids, vec![pair("2500.00", "10.0"), pair("2499.50", "20.0")]);
    assert_eq!(book.asks, vec![pair("2510.00", "5.0")]);

    match product_book_error("timeout") {
        ProviderError::BackendError(message) => {
            assert_eq!(message, "Failed to fetch product book: timeout")
        }
        other => panic!("unexpected error {:?}", other),
    }
}

#[test]
fn crypto_com_book_request() {
    let config = CryptoComConfig {
        api_key: "k".to_string(),
        api_secret: "s".to_string(),
        environment: "testnet".to_string(),
        api_url: "https://uat-api.3ona.co/exchange/v1//".to_string(),
    };
    let request = config.book_request(&book_request("ETH", "USDT", Some(20)));
    assert_eq!(request.url, "https://uat-api.3ona.co/exchange/v1/public/get-book");
    assert_eq!(request.pair, "ETH_USDT");
    assert_eq!(
        request.query,
        vec![
            ("instrument_name".to_string(), "ETH_USDT".to_string()),
            ("depth".to_string(), "20".to_string())
        ]
    );
    let request = config.book_request(&book_request("ETH", "USDT", None));
    assert_eq!(request.query, vec![("instrument_name".to_string(), "ETH_USDT".to_string())]);
}

fn backend_message(result: Result<OrderBookResponse, ProviderError>) -> String {
    match result {
        Err(ProviderError::BackendError(message)) => message,
        other => panic!("expected a backend error, got {:?}", other),
    }
}

#[test]
fn crypto_com_error_replies() {
    let reply = CryptoComGetOrderBookResponse {
        code: 10004,
        method: Some("public/get-book".to_string()),
        result: None,
        message: Some("BAD_REQUEST".to_string()),
    };
    assert_eq!(
        backend_message(reply_order_book(reply)),
        "crypto.com error code=10004 method=public/get-book message=BAD_REQUEST"
    );
    let reply = CryptoComGetOrderBookResponse { code: -1, method: None, result: None, message: None };
    assert_eq!(
        backend_message(reply_order_book(reply)),
        "crypto.com error code=-1 method=unknown method message=unknown error"
    );
    let reply = CryptoComGetOrderBookResponse { code: 0, method: None, result: None, message: None };
    assert_eq!(backend_message(reply_order_book(reply)), "crypto.com response missing result");
    let reply = CryptoComGetOrderBookResponse {
        code: 0,
        method: None,
        result: Some(CryptoComGetBookResult { data: vec![], instrument_name: "BTC_USDT".to_string() }),
        message: None,
    };
    assert_eq!(backend_message(reply_order_book(reply)), "missing order book data");
    match parse_error("expected value") {
        ProviderError::BackendError(message) => {
            assert_eq!(message, "failed to parse response: expected value")
        }
        other => panic!("unexpected error {:?}", other),
    }
}

#[test]
fn crypto_com_book_reply() {
    let reply = CryptoComGetOrderBookResponse {
        code: 0,
        method: Some("public/get-book".to_string()),
        result: Some(CryptoComGetBookResult {
            data: vec![
                CryptoComGetBookData {
                    asks: vec![strings(&["30000.5", "0.1", "3"]), strings(&["30001"])],
                    bids: vec![strings(&["29999.5", "0.2", "1"])],
                },
                CryptoComGetBookData { asks: vec![], bids: vec![strings(&["1", "1"])] },
            ],
            instrument_name: "BTC_USDT".to_string(),
        }),
        message: None,
    };
    let book = reply_order_book(reply).expect("book expected");
    assert_eq!(book.provider, "crypto_com");
    assert_eq!(book.pair, "BTC_USDT");
    assert_eq!(book.bids, vec![pair("29999.5", "0.2")]);
    assert_eq!(book.asks, vec![pair("30000.5", "0.1")]);
}

#[test]
fn registry_lookup() {
    let clients = Clients::new("B", "C", "K");
    assert_eq!(clients.get("binance"), Some(&"B"));
    assert_eq!(clients.get("crypto.com"), Some(&"C"));
    assert_eq!(clients.get("coinbase"), Some(&"K"));
    assert_eq!(clients.get("kraken"), None);
    assert_eq!(clients.get("Binance"), None);
    let names: Vec<&str> = clients.providers().iter().map(|(name, _)| name.as_str()).collect();
    assert_eq!(names, vec!["binance", "crypto.com", "coinbase"]);
}

#[test]
fn routing_lowercases_the_provider() {
    let clients = Clients::new(1u8, 2u8, 3u8);
    let request = OrderBookRequest {
        provider: "Crypto.COM".to_string(),
        base: "ETH".to_string(),
        quote: "USDT".to_string(),
        depth: Some(20),
    };
    let (client, provider_request) = route_order_book_request(&clients, request).expect("routed");
    assert_eq!(*client, 2);
    assert_eq!(provider_request.base, "ETH");
    assert_eq!(provider_request.quote, "USDT");
    assert_eq!(provider_request.depth, Some(20));

    let request = OrderBookRequest {
        provider: "XYZ_Exchange".to_string(),
        base: "BTC".to_string(),
        quote: "USDT".to_string(),
        depth: None,
    };
    match route_order_book_request(&clients, request) {
        Err(ProviderError::UnsupportedProvider(name)) => assert_eq!(name, "xyz_exchange"),
        other => panic!("unexpected routing {:?}", other.map(|(c, r)| (*c, r))),
    }
}

#[test]
fn outcome_reports() {
    let ok = ProviderBookResult::from_outcome(Ok(sample_book("binance")));
    assert!(ok.success);
    assert_eq!(ok.data.as_ref().map(|b| b.provider.clone()), Some("binance".to_string()));
    assert_eq!(ok.error, None);

    let failed = ProviderBookResult::from_outcome(Err(ProviderError::BackendError("down".to_string())));
    assert!(!failed.success);
    assert!(failed.data.is_none());
    assert_eq!(failed.error, Some("backend error: down".to_string()));

    let results = collect_book_results(vec![
        ("binance".to_string(), Ok(sample_book("binance"))),
        ("coinbase".to_string(), Err(ProviderError::InvalidRequest("bad pair".to_string()))),
    ]);
    assert_eq!(results.len(), 2);
    assert_eq!(results[0].0, "binance");
    assert!(results[0].1.success);
    assert_eq!(results[1].0, "coinbase");
    assert_eq!(results[1].1.error, Some("invalid request: bad pair".to_string()));
    assert!(collect_book_results(vec![]).is_empty());
}

#[test]
fn shared_state_clones_share_the_registry() {
    let state = AppState { clients: Arc::new(Clients::new(1u8, 2u8, 3u8)) };
    let copy = state.clone();
    assert!(Arc::ptr_eq(&state.clients, &copy.clients));
    assert_eq!(copy.clients.get("coinbase"), Some(&3u8));
}

#[test]
fn every_provider_gets_the_same_request() {
    let clients = Clients::new('b', 'c', 'k');
    let request = book_request("SOL", "USDC", Some(5));
    let plan = all_provider_requests(&clients, &request);
    assert_eq!(plan.len(), 3);
    let names: Vec<&str> = plan.iter().map(|(name, _, _)| name.as_str()).collect();
    assert_eq!(names, vec!["binance", "crypto.com", "coinbase"]);
    let targets: Vec<char> = plan.iter().map(|(_, client, _)| **client).collect();
    assert_eq!(targets, vec!['b', 'c', 'k']);
    for (_, _, sent) in &plan {
        assert_eq!(sent.base, "SOL");
        assert_eq!(sent.quote, "USDC");
        assert_eq!(sent.depth, Some(5));
    }
}

#[test]
fn requests_clone_field_by_field() {
    let request = OrderBookRequest {
        provider: "binance".to_string(),
        base: "BTC".to_string(),
        quote: "USDT".to_string(),
        depth: Some(10),
    };
    let copy = request.clone();
    assert_eq!(copy.provider, "binance");
    assert_eq!(copy.base, "BTC");
    assert_eq!(copy.quote, "USDT");
    assert_eq!(copy.depth, Some(10));
    let provider_request = book_request("BTC", "USDT", None).clone();
    assert_eq!(provider_request.base, "BTC");
    assert_eq!(provider_request.depth, None);
}
