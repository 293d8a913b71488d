//! Provider registry, request routing, and the per-exchange request and reply
//! handling.

pub mod binance;
pub mod coinbase;
pub mod crypto_com;
pub mod provider;
pub mod types;
