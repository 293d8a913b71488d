pub mod binance_client;
