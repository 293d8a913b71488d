//! Binance: configuration, the depth request's symbol and limit, and the
//! order book built from a depth reply.

use crate::services::types::{
    book_levels, levels_from_rows, parse_environment, environment_of, Environment, OrderBookResponse,
    ProviderBookRequest,
};
use vstd::prelude::*;

verus! {

/// Binance credentials and the environment to use, read from the
/// environment variables `binance_api_key`, `binance_api_secret` and
/// `binance_env`.
pub struct Config {
    pub api_key: String,
    pub api_secret: String,
    pub environment: String,
}

impl Config {
    /// The environment used when none is configured: the testnet, for safety.
    pub fn default_env() -> (r: String)
        ensures
            r@ == "testnet"@,
    {
        String::from_str("testnet")
    }

    /// The environment this configuration selects, if its name is known.
    pub fn environment_kind(&self) -> (r: Option<Environment>)
        ensures
            r == environment_of(self.environment@),
    {
        parse_environment(&self.environment)
    }
}

/// The Binance symbol of a pair: base and quote written together, as
/// `BTCUSDT`.
pub open spec fn binance_symbol(base: Seq<char>, quote: Seq<char>) -> Seq<char> {
    base + quote
}

/// A Binance symbol is the base followed directly by the quote: it is as
/// long as both together, its first characters are the base and the rest is
/// the quote.
pub proof fn lemma_binance_symbol_layout(base: Seq<char>, quote: Seq<char>)
    ensures
        binance_symbol(base, quote).len() == base.len() + quote.len(),
        binance_symbol(base, quote).take(base.len() as int) == base,
        binance_symbol(base, quote).skip(base.len() as int) == quote,
{
    assert(binance_symbol(base, quote).take(base.len() as int) =~= base);
    assert(binance_symbol(base, quote).skip(base.len() as int) =~= quote);
}

/// The symbol to ask Binance for.
pub fn depth_symbol(request: &ProviderBookRequest) -> (r: String)
    ensures
        r@ == binance_symbol(request.base@, request.quote@),
        r@.len() == request.base@.len() + request.quote@.len(),
        r@.take(request.base@.len() as int) == request.base@,
        r@.skip(request.base@.len() as int) == request.quote@,
{
    proof {
        lemma_binance_symbol_layout(request.base@, request.quote@);
    }
    request.base.clone().concat(request.quote.as_str())
}

/// The depth limit to ask Binance for: the requested depth converted to a
/// 32-bit signed number with `as`, so a depth above `i32::MAX` wraps around.
pub fn depth_limit(depth: Option<u32>) -> (r: Option<i32>)
    ensures
        r is Some <==> depth is Some,
        depth matches Some(d) ==> r->0 == (if d <= i32::MAX {
            d as int
        } else {
            d - 0x1_0000_0000
        }),
{
    match depth {
        Some(d) => {
            let limit = d as i32;
            assert(limit == (if d <= i32::MAX { d as int } else { d - 0x1_0000_0000 })) by (bit_vector)
                requires
                    limit == d as i32,
            ;
            Some(limit)
        },
        None => None,
    }
}

/// The order book of a Binance depth reply to `request`: its pair is the
/// symbol that was asked for, missing bid or ask lists count as empty, and
/// malformed rows are skipped.
pub fn depth_order_book(
    request: &ProviderBookRequest,
    bids: Option<Vec<Vec<String>>>,
    asks: Option<Vec<Vec<String>>>,
) -> (r: OrderBookResponse)
    ensures
        r.provider@ == "binance"@,
        r.pair@ == binance_symbol(request.base@, request.quote@),
        r.pair@.take(request.base@.len() as int) == request.base@,
        r.pair@.skip(request.base@.len() as int) == request.quote@,
        r.bids.deep_view() == (match bids {
            Some(rows) => book_levels(rows.deep_view()),
            None => Seq::empty(),
        }),
        r.asks.deep_view() == (match asks {
            Some(rows) => book_levels(rows.deep_view()),
            None => Seq::empty(),
        }),
{
    let pair = depth_symbol(request);
    proof {
        lemma_binance_symbol_layout(request.base@, request.quote@);
    }
    let bid_levels = match bids {
        Some(rows) => levels_from_rows(&rows),
        None => Vec::new(),
    };
    let ask_levels = match asks {
        Some(rows) => levels_from_rows(&rows),
        None => Vec::new(),
    };
    assert(bids is None ==> bid_levels.deep_view() =~= Seq::empty());
    assert(asks is None ==> ask_levels.deep_view() =~= Seq::empty());
    OrderBookResponse {
        provider: String::from_str("binance"),
        pair,
        bids: bid_levels,
        asks: ask_levels,
    }
}

} // verus!
