//! Coinbase: configuration, the product book query, and the order book built
//! from a product book reply.

use crate::services::types::{
    environment_of, parse_environment, Environment, OrderBookResponse, ProviderBookRequest,
    ProviderError,
};
use vstd::prelude::*;

verus! {

/// Coinbase settings, read from the environment variable `coinbase_env`; the
/// credentials are read by the Coinbase SDK itself.
pub struct Config {
    pub environment: String,
}

impl Config {
    /// The environment used when none is configured: the testnet, for safety.
    pub fn default_env() -> (r: String)
        ensures
            r@ == "testnet"@,
    {
        String::from_str("testnet")
    }

    /// Whether to use the Coinbase sandbox: yes for `testnet`, no for
    /// `production`; any other name is refused.
    pub fn sandbox(&self) -> (r: Option<bool>)
        ensures
            r == (match environment_of(self.environment@) {
                Some(Environment::Testnet) => Some(true),
                Some(Environment::Production) => Some(false),
                None => None,
            }),
    {
        match parse_environment(&self.environment) {
            Some(Environment::Testnet) => Some(true),
            Some(Environment::Production) => Some(false),
            None => None,
        }
    }
}

/// The Coinbase product id of a pair: base and quote joined by a dash, as
/// `BTC-USD`.
pub open spec fn coinbase_product_id(base: Seq<char>, quote: Seq<char>) -> Seq<char> {
    base + "-"@ + quote
}

/// A Coinbase product id is the base, a dash, then the quote: it is one
/// character longer than both together, starts with the base, has the dash
/// right after it, and ends with the quote.
pub proof fn lemma_product_id_layout(base: Seq<char>, quote: Seq<char>)
    ensures
        coinbase_product_id(base, quote).len() == base.len() + 1 + quote.len(),
        coinbase_product_id(base, quote).take(base.len() as int) == base,
        coinbase_product_id(base, quote)[base.len() as int] == '-',
        coinbase_product_id(base, quote).skip(base.len() + 1int) == quote,
{
    reveal_strlit("-");
    assert(coinbase_product_id(base, quote).take(base.len() as int) =~= base);
    assert(coinbase_product_id(base, quote).skip(base.len() + 1int) =~= quote);
}

/// The query for a Coinbase product book: the product and, if one was
/// requested, the number of levels.
pub struct ProductBookQuery {
    pub product_id: String,
    pub limit: Option<u32>,
}

/// The product book query for a request.
pub fn product_book_query(request: &ProviderBookRequest) -> (r: ProductBookQuery)
    ensures
        r.product_id@ == coinbase_product_id(request.base@, request.quote@),
        r.product_id@.len() == request.base@.len() + 1 + request.quote@.len(),
        r.product_id@.take(request.base@.len() as int) == request.base@,
        r.product_id@[request.base@.len() as int] == '-',
        r.product_id@.skip(request.base@.len() + 1int) == request.quote@,
        r.limit == request.depth,
{
    proof {
        lemma_product_id_layout(request.base@, request.quote@);
    }
    let product_id = request.base.clone().concat("-").concat(request.quote.as_str());
    ProductBookQuery { product_id, limit: request.depth }
}

/// One level of a Coinbase product book.
pub struct PriceLevel {
    pub price: String,
    pub size: String,
}

/// The (price, size) pairs of Coinbase levels, in order.
pub open spec fn level_pairs(levels: Seq<PriceLevel>) -> Seq<(Seq<char>, Seq<char>)> {
    levels.map_values(|level: PriceLevel| (level.price@, level.size@))
}

/// Every Coinbase level becomes one pair, in order: as many pairs as levels,
/// and pair `i` is the price and size of level `i`.
pub proof fn lemma_level_pairs_one_to_one(levels: Seq<PriceLevel>)
    ensures
        level_pairs(levels).len() == levels.len(),
        forall|i: int| 0 <= i < levels.len() ==> #[trigger] level_pairs(levels)[i] == (levels[i].price@, levels[i].size@),
{
}

fn pairs_of_levels(levels: &Vec<PriceLevel>) -> (r: Vec<(String, String)>)
    ensures
        r.deep_view() == level_pairs(levels@),
{
    let mut r: Vec<(String, String)> = Vec::new();
    let mut i: usize = 0;
    while i < levels.len()
        invariant
            i <= levels@.len(),
            r.deep_view() =~= level_pairs(levels@.take(i as int)),
        decreases levels@.len() - i,
    {
        let level = &levels[i];
        let ghost before = r.deep_view();
        r.push((level.price.clone(), level.size.clone()));
        assert(r.deep_view() =~= before.push((level.price@, level.size@)));
        assert(level_pairs(levels@.take(i + 1 as int)) =~= level_pairs(levels@.take(i as int)).push(
            (level.price@, level.size@),
        ));
        i = i + 1;
    }
    assert(levels@.take(levels@.len() as int) =~= levels@);
    r
}

/// The order book of a Coinbase product book reply to `request`: its pair
/// is the product that was asked for, and every level becomes a (price, size)
/// pair, in order.
pub fn product_order_book(request: &ProviderBookRequest, bids: &Vec<PriceLevel>, asks: &Vec<PriceLevel>) -> (r:
    OrderBookResponse)
    ensures
        r.provider@ == "coinbase"@,
        r.pair@ == coinbase_product_id(request.base@, request.quote@),
        r.pair@[request.base@.len() as int] == '-',
        r.bids.deep_view() == level_pairs(bids@),
        r.asks.deep_view() == level_pairs(asks@),
        r.bids.deep_view().len() == bids@.len(),
        r.asks.deep_view().len() == asks@.len(),
        forall|i: int| 0 <= i < bids@.len() ==> #[trigger] r.bids.deep_view()[i] == (bids@[i].price@, bids@[i].size@),
        forall|i: int| 0 <= i < asks@.len() ==> #[trigger] r.asks.deep_view()[i] == (asks@[i].price@, asks@[i].size@),
{
    proof {
        lemma_level_pairs_one_to_one(bids@);
        lemma_level_pairs_one_to_one(asks@);
    }
    let query = product_book_query(request);
    OrderBookResponse {
        provider: String::from_str("coinbase"),
        pair: query.product_id,
        bids: pairs_of_levels(bids),
        asks: pairs_of_levels(asks),
    }
}

/// The error for a failed product book request, with the SDK's description
/// of the failure.
pub fn product_book_error(detail: &str) -> (r: ProviderError)
    ensures
        r matches ProviderError::BackendError(message) && message@ == "Failed to fetch product book: "@
            + detail@,
{
    ProviderError::BackendError(String::from_str("Failed to fetch product book: ").concat(detail))
}

} // verus!
