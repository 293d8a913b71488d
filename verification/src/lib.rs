//! Order book access to several crypto exchanges: the request routing, the
//! per-exchange request shaping and the normalisation of exchange replies into
//! one order book format.

pub mod text;
pub mod services;
pub mod app;
