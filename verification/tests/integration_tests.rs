// Tests of the order book types and of the error messages.

use crypto_market_connector::services::types::{OrderBookResponse, ProviderError};

#[test]
fn test_order_book_response_creation() {
    let response = OrderBookResponse {
        provider: "binance".to_string(),
        pair: "BTCUSDT".to_string(),
        bids: vec![
            ("42500.00".to_string(), "1.5".to_string()),
            ("42499.50".to_string(), "2.0".to_string()),
        ],
        asks: vec![
            ("42510.00".to_string(), "1.2".to_string()),
            ("42510.50".to_string(), "3.0".to_string()),
        ],
    };

    assert_eq!(response.provider, "binance");
    assert_eq!(response.pair, "BTCUSDT");
    assert_eq!(response.bids.len(), 2);
    assert_eq!(response.asks.len(), 2);

    assert_eq!(response.bids[0].0, "42500.00");
    assert_eq!(response.asks[0].0, "42510.00");
}

#[test]
fn test_unsupported_provider_error() {
    let error = ProviderError::UnsupportedProvider("xyz_exchange".to_string());
    let error_msg = error.to_string();

    assert!(error_msg.contains("unsupported provider"));
    assert!(error_msg.contains("xyz_exchange"));
}

#[test]
fn test_invalid_request_error() {
    let error = ProviderError::InvalidRequest("missing fields".to_string());
    let error_msg = error.to_string();

    assert!(error_msg.contains("invalid request"));
    assert!(error_msg.contains("missing fields"));
}

#[test]
fn test_backend_error() {
    let error = ProviderError::BackendError("API connection failed".to_string());
    let error_msg = error.to_string();

    assert!(error_msg.contains("backend error"));
    assert!(error_msg.contains("API connection failed"));
}

#[test]
fn test_error_display_trait() {
    let errors = vec![
        ProviderError::UnsupportedProvider("test".to_string()),
        ProviderError::InvalidRequest("test".to_string()),
        ProviderError::BackendError("test".to_string()),
    ];

    for error in errors {
        let msg = error.to_string();
        assert!(!msg.is_empty());
    }
}

#[test]
fn test_pair_symbol_format() {
    let pairs = vec![
        ("binance", "BTCUSDT"),
        ("crypto.com", "BTC_USDT"),
        ("coinbase", "BTC-USD"),
    ];

    for (provider, pair) in pairs {
        let response = OrderBookResponse {
            provider: provider.to_string(),
            pair: pair.to_string(),
            bids: vec![],
            asks: vec![],
        };

        assert_eq!(response.pair, pair);
    }
}

#[test]
fn test_order_book_price_precision() {
    let response = OrderBookResponse {
        provider: "binance".to_string(),
        pair: "BTCUSDT".to_string(),
        bids: vec![("42500.123456789".to_string(), "1.123456".to_string())],
        asks: vec![],
    };

    assert_eq!(response.bids[0].0, "42500.123456789");
    assert_eq!(response.bids[0].1, "1.123456");
}

#[test]
fn test_multiple_bid_ask_levels() {
    let response = OrderBookResponse {
        provider: "binance".to_string(),
        pair: "ETHUSDT".to_string(),
        bids: vec![
            ("2500.00".to_string(), "10.0".to_string()),
            ("2499.50".to_string(), "20.0".to_string()),
            ("2499.00".to_string(), "15.0".to_string()),
            ("2498.50".to_string(), "30.0".to_string()),
            ("2498.00".to_string(), "25.0".to_string()),
        ],
        asks: vec![
            ("2510.00".to_string(), "5.0".to_string()),
            ("2510.50".to_string(), "15.0".to_string()),
            ("2511.00".to_string(), "10.0".to_string()),
            ("2511.50".to_string(), "20.0".to_string()),
            ("2512.00".to_string(), "12.0".to_string()),
        ],
    };

    assert_eq!(response.bids.len(), 5);
    assert_eq!(response.asks.len(), 5);

    assert!(
        response.bids[0].0.parse::<f64>().unwrap() > response.bids[1].0.parse::<f64>().unwrap()
    );
    assert!(
        response.asks[0].0.parse::<f64>().unwrap() < response.asks[1].0.parse::<f64>().unwrap()
    );
}
