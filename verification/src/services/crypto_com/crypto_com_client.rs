//! Crypto.com: configuration, the book request (URL and query), and the
//! checks and normalisation of a `public/get-book` reply.

use crate::services::types::{book_levels, levels_from_rows, OrderBookResponse, ProviderBookRequest, ProviderError};
use crate::text::{
    decimal, digits_value, lemma_decimal_reads_back, i32_to_decimal, signed_decimal, trim_trailing, trim_trailing_slashes, u32_to_decimal,
};
use vstd::prelude::*;

verus! {

/// Crypto.com credentials, environment and API base URL, read from the
/// environment variables `crypto_com_api_key`, `crypto_com_api_secret`,
/// `crypto_com_env` and `crypto_com_api_url`.
pub struct Config {
    pub api_key: String,
    pub api_secret: String,
    pub environment: String,
    pub api_url: String,
}

/// The path of the order book endpoint, below the API base URL.
pub open spec fn book_path() -> Seq<char> {
    "public/get-book"@
}

/// The URL of the order book endpoint for an API base URL: the base URL
/// without trailing slashes, a slash, and the endpoint's path.
pub open spec fn book_url(api_url: Seq<char>) -> Seq<char> {
    trim_trailing(api_url, '/') + "/"@ + book_path()
}

/// The Crypto.com instrument name of a pair: base and quote joined by an
/// underscore, as `BTC_USDT`.
pub open spec fn instrument_name(base: Seq<char>, quote: Seq<char>) -> Seq<char> {
    base + "_"@ + quote
}

/// The query parameters of a book request: the instrument and, if one was
/// requested, the depth in decimal.
pub open spec fn book_query(instrument: Seq<char>, depth: Option<u32>) -> Seq<(Seq<char>, Seq<char>)> {
    seq![("instrument_name"@, instrument)] + match depth {
        Some(d) => seq![("depth"@, decimal(d as nat))],
        None => Seq::empty(),
    }
}

/// A Crypto.com instrument name is the base, an underscore, then the quote:
/// it is one character longer than both together, starts with the base, has
/// the underscore right after it, and ends with the quote.
pub proof fn lemma_instrument_name_layout(base: Seq<char>, quote: Seq<char>)
    ensures
        instrument_name(base, quote).len() == base.len() + 1 + quote.len(),
        instrument_name(base, quote).take(base.len() as int) == base,
        instrument_name(base, quote)[base.len() as int] == '_',
        instrument_name(base, quote).skip(base.len() + 1int) == quote,
{
    reveal_strlit("_");
    assert(instrument_name(base, quote).take(base.len() as int) =~= base);
    assert(instrument_name(base, quote).skip(base.len() + 1int) =~= quote);
}

/// The query of a book request names the instrument first; with a depth it
/// has one more parameter, `depth`, whose value read back in base 10 is the
/// requested depth itself; without one it has no other parameter.
pub proof fn lemma_book_query_parameters(instrument: Seq<char>, depth: Option<u32>)
    ensures
        book_query(instrument, depth)[0] == ("instrument_name"@, instrument),
        depth is None ==> book_query(instrument, depth).len() == 1,
        depth matches Some(d) ==> {
            &&& book_query(instrument, depth).len() == 2
            &&& book_query(instrument, depth)[1].0 == "depth"@
            &&& digits_value(book_query(instrument, depth)[1].1) == d
        },
{
    match depth {
        Some(d) => {
            lemma_decimal_reads_back(d as nat);
        },
        None => {},
    }
}

/// A request for the order book of one instrument.
pub struct BookRequest {
    pub pair: String,
    pub url: String,
    pub query: Vec<(String, String)>,
}

impl Config {
    /// The environment used when none is configured: the testnet, for safety.
    pub fn default_env() -> (r: String)
        ensures
            r@ == "testnet"@,
    {
        String::from_str("testnet")
    }

    /// The order book request for `request` against this configuration's API.
    pub fn book_request(&self, request: &ProviderBookRequest) -> (r: BookRequest)
        ensures
            r.pair@ == instrument_name(request.base@, request.quote@),
            r.url@ == book_url(self.api_url@),
            r.query.deep_view() == book_query(r.pair@, request.depth),
            r.pair@.take(request.base@.len() as int) == request.base@,
            r.pair@[request.base@.len() as int] == '_',
            r.pair@.skip(request.base@.len() + 1int) == request.quote@,
            r.query.deep_view()[0] == ("instrument_name"@, r.pair@),
            request.depth is None ==> r.query.deep_view().len() == 1,
            request.depth matches Some(d) ==> {
                &&& r.query.deep_view().len() == 2
                &&& r.query.deep_view()[1].0 == "depth"@
                &&& digits_value(r.query.deep_view()[1].1) == d
            },
    {
        proof {
            lemma_instrument_name_layout(request.base@, request.quote@);
        }
        let pair = request.base.clone().concat("_").concat(request.quote.as_str());
        let url = trim_trailing_slashes(self.api_url.as_str()).concat("/").concat("public/get-book");
        let mut query: Vec<(String, String)> = Vec::new();
        query.push((String::from_str("instrument_name"), pair.clone()));
        match request.depth {
            Some(d) => {
                query.push((String::from_str("depth"), u32_to_decimal(d)));
            },
            None => {},
        }
        assert(query.deep_view() =~= book_query(pair@, request.depth));
        proof {
            lemma_book_query_parameters(pair@, request.depth);
        }
        BookRequest { pair, url, query }
    }
}

/// A reply of the `public/get-book` endpoint.
pub struct CryptoComGetOrderBookResponse {
    pub code: i32,
    pub method: Option<String>,
    pub result: Option<CryptoComGetBookResult>,
    pub message: Option<String>,
}

/// The result part of a book reply.
pub struct CryptoComGetBookResult {
    pub data: Vec<CryptoComGetBookData>,
    pub instrument_name: String,
}

/// One order book in a book reply: rows of strings, price first, quantity
/// second.
pub struct CryptoComGetBookData {
    pub asks: Vec<Vec<String>>,
    pub bids: Vec<Vec<String>>,
}

/// An optional text, or a default when it is absent.
pub open spec fn text_or(text: Option<String>, default: Seq<char>) -> Seq<char> {
    match text {
        Some(t) => t@,
        None => default,
    }
}

/// The message of an error reply: its code, method and message, with
/// `unknown method` and `unknown error` for the absent ones.
pub open spec fn error_reply_message(reply: CryptoComGetOrderBookResponse) -> Seq<char> {
    "crypto.com error code="@ + signed_decimal(reply.code as int) + " method="@ + text_or(
        reply.method,
        "unknown method"@,
    ) + " message="@ + text_or(reply.message, "unknown error"@)
}

fn text_or_default(text: Option<String>, default: &str) -> (r: String)
    ensures
        r@ == text_or(text, default@),
{
    match text {
        Some(t) => t,
        None => String::from_str(default),
    }
}

/// Checks a book reply and turns its first order book into an order book:
/// a nonzero code is a backend error quoting code, method and message; a
/// reply without result, or whose result holds no book, is a backend error
/// too. The book's pair is the reply's instrument name, and malformed rows
/// are skipped.
pub fn reply_order_book(reply: CryptoComGetOrderBookResponse) -> (r: Result<OrderBookResponse, ProviderError>)
    ensures
        if reply.code != 0 {
            r matches Err(ProviderError::BackendError(m)) && m@ == error_reply_message(reply)
        } else {
            match reply.result {
                None => r matches Err(ProviderError::BackendError(m)) && m@
                    == "crypto.com response missing result"@,
                Some(res) => if res.data@.len() == 0 {
                    r matches Err(ProviderError::BackendError(m)) && m@ == "missing order book data"@
                } else {
                    r matches Ok(book) && book.provider@ == "crypto_com"@ && book.pair@
                        == res.instrument_name@ && book.bids.deep_view() == book_levels(
                        res.data@[0].bids.deep_view(),
                    ) && book.asks.deep_view() == book_levels(res.data@[0].asks.deep_view())
                },
            }
        },
{
    if reply.code != 0 {
        let error_message = text_or_default(reply.message, "unknown error");
        let method = text_or_default(reply.method, "unknown method");
        let message = String::from_str("crypto.com error code=").concat(
            i32_to_decimal(reply.code).as_str(),
        ).concat(" method=").concat(method.as_str()).concat(" message=").concat(error_message.as_str());
        return Err(ProviderError::BackendError(message));
    }
    match reply.result {
        None => Err(ProviderError::BackendError(String::from_str("crypto.com response missing result"))),
        Some(result) => {
            if result.data.len() == 0 {
                return Err(ProviderError::BackendError(String::from_str("missing order book data")));
            }
            let book_data = &result.data[0];
            let bids = levels_from_rows(&book_data.bids);
            let asks = levels_from_rows(&book_data.asks);
            Ok(
                OrderBookResponse {
                    provider: String::from_str("crypto_com"),
                    pair: result.instrument_name,
                    bids,
                    asks,
                },
            )
        },
    }
}

/// The error for a reply that could not be parsed, with the parser's
/// description of the failure.
pub fn parse_error(detail: &str) -> (r: ProviderError)
    ensures
        r matches ProviderError::BackendError(message) && message@ == "failed to parse response: "@
            + detail@,
{
    ProviderError::BackendError(String::from_str("failed to parse response: ").concat(detail))
}

/// The URL of a book request has no doubled slash where the base URL and the
/// endpoint path meet: the base URL part does not end in a slash, and it is
/// the configured base URL with only slashes cut off its end.
pub proof fn lemma_book_url_joins_once(api_url: Seq<char>)
    ensures
        book_url(api_url) == trim_trailing(api_url, '/') + "/"@ + book_path(),
        trim_trailing(api_url, '/').len() == 0 || trim_trailing(api_url, '/').last() != '/',
        trim_trailing(api_url, '/') == api_url.take(trim_trailing(api_url, '/').len() as int),
        forall|i: int| trim_trailing(api_url, '/').len() <= i < api_url.len() ==> api_url[i] == '/',
{
    crate::text::lemma_trim_trailing_shape(api_url, '/');
}

} // verus!
