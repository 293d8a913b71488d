//! The request, reply and error types shared by all providers.

use vstd::prelude::*;

verus! {

/// A request for the order book of one trading pair at one provider.
#[derive(Debug)]
pub struct OrderBookRequest {
    pub provider: String,
    pub base: String,
    pub quote: String,
    pub depth: Option<u32>,
}

/// An order book: bids and asks as (price, quantity) pairs, prices and
/// quantities kept as the exchange wrote them.
#[derive(Debug)]
pub struct OrderBookResponse {
    pub provider: String,
    pub pair: String,
    pub bids: Vec<(String, String)>,
    pub asks: Vec<(String, String)>,
}

/// A request for the order book of one trading pair, without the provider.
#[derive(Debug)]
pub struct ProviderBookRequest {
    pub base: String,
    pub quote: String,
    pub depth: Option<u32>,
}

impl Clone for OrderBookRequest {
    fn clone(&self) -> (r: Self)
        ensures
            r.provider@ == self.provider@,
            r.base@ == self.base@,
            r.quote@ == self.quote@,
            r.depth == self.depth,
    {
        OrderBookRequest {
            provider: self.provider.clone(),
            base: self.base.clone(),
            quote: self.quote.clone(),
            depth: self.depth,
        }
    }
}

impl Clone for ProviderBookRequest {
    fn clone(&self) -> (r: Self)
        ensures
            r.base@ == self.base@,
            r.quote@ == self.quote@,
            r.depth == self.depth,
    {
        ProviderBookRequest { base: self.base.clone(), quote: self.quote.clone(), depth: self.depth }
    }
}

/// The outcome of asking one provider: either the book or an error message.
#[derive(Debug)]
pub struct ProviderBookResult {
    pub success: bool,
    pub data: Option<OrderBookResponse>,
    pub error: Option<String>,
}

/// The ways a request to a provider can fail.
#[derive(Debug)]
pub enum ProviderError {
    /// The requested provider is not supported.
    UnsupportedProvider(String),
    /// The request parameters are invalid.
    InvalidRequest(String),
    /// The provider's backend failed or answered with an error.
    BackendError(String),
}

/// The exchange environment a client talks to.
#[derive(Clone, Copy, Debug, PartialEq, Eq, Structural)]
pub enum Environment {
    Testnet,
    Production,
}

/// Which environment an environment name selects: `testnet` or `production`;
/// any other name selects none.
pub open spec fn environment_of(name: Seq<char>) -> Option<Environment> {
    if name == "testnet"@ {
        Some(Environment::Testnet)
    } else if name == "production"@ {
        Some(Environment::Production)
    } else {
        None
    }
}

/// Reads an environment name: `testnet` or `production`, anything else is
/// refused.
pub fn parse_environment(name: &String) -> (r: Option<Environment>)
    ensures
        r == environment_of(name@),
{
    if *name == String::from_str("testnet") {
        Some(Environment::Testnet)
    } else if *name == String::from_str("production") {
        Some(Environment::Production)
    } else {
        None
    }
}

/// The text that names the kind of an error, before its detail.
pub open spec fn error_prefix(e: ProviderError) -> Seq<char> {
    match e {
        ProviderError::UnsupportedProvider(_) => "unsupported provider: "@,
        ProviderError::InvalidRequest(_) => "invalid request: "@,
        ProviderError::BackendError(_) => "backend error: "@,
    }
}

/// The detail that an error carries.
pub open spec fn error_detail(e: ProviderError) -> Seq<char> {
    match e {
        ProviderError::UnsupportedProvider(s) => s@,
        ProviderError::InvalidRequest(s) => s@,
        ProviderError::BackendError(s) => s@,
    }
}

/// The human-readable message of an error: its kind, then its detail.
pub open spec fn error_message(e: ProviderError) -> Seq<char> {
    error_prefix(e) + error_detail(e)
}

impl ProviderError {
    /// The message of this error, such as `unsupported provider: xyz`.
    pub fn to_string(&self) -> (r: String)
        ensures
            r@ == error_message(*self),
    {
        proof {
            reveal_strlit("unsupported provider: ");
            reveal_strlit("invalid request: ");
            reveal_strlit("backend error: ");
        }
        match self {
            ProviderError::UnsupportedProvider(provider) => {
                String::from_str("unsupported provider: ").concat(provider.as_str())
            },
            ProviderError::InvalidRequest(message) => {
                String::from_str("invalid request: ").concat(message.as_str())
            },
            ProviderError::BackendError(message) => {
                String::from_str("backend error: ").concat(message.as_str())
            },
        }
    }
}

/// Every error message names the kind of error, so it is never empty, and
/// it ends with the error's detail.
pub proof fn lemma_error_message_shape(e: ProviderError)
    ensures
        error_message(e).len() > error_detail(e).len(),
        error_message(e).subrange(0, error_prefix(e).len() as int) == error_prefix(e),
        error_message(e).subrange(error_prefix(e).len() as int, error_message(e).len() as int)
            == error_detail(e),
{
    reveal_strlit("unsupported provider: ");
    reveal_strlit("invalid request: ");
    reveal_strlit("backend error: ");
    assert(error_message(e).subrange(0, error_prefix(e).len() as int) =~= error_prefix(e));
    assert(error_message(e).subrange(error_prefix(e).len() as int, error_message(e).len() as int)
        =~= error_detail(e));
}

/// Whether `r` reports `outcome`: a book is reported as a success carrying
/// it and no error; a failure as no success, no book and the error's message.
pub open spec fn reports(r: ProviderBookResult, outcome: Result<OrderBookResponse, ProviderError>) -> bool {
    match outcome {
        Ok(book) => r.success && r.data == Some(book) && r.error is None,
        Err(e) => !r.success && r.data is None && r.error is Some && r.error->0@ == error_message(e),
    }
}

impl ProviderBookResult {
    /// Whether the fields agree: a success carries a book and no error, a
    /// failure an error and no book.
    pub open spec fn is_consistent(self) -> bool {
        &&& self.success <==> self.data is Some
        &&& self.success <==> self.error is None
    }

    /// The report of one provider's outcome.
    pub fn from_outcome(outcome: Result<OrderBookResponse, ProviderError>) -> (r: ProviderBookResult)
        ensures
            reports(r, outcome),
            r.is_consistent(),
    {
        match outcome {
            Ok(data) => ProviderBookResult { success: true, data: Some(data), error: None },
            Err(err) => {
                let message = err.to_string();
                ProviderBookResult { success: false, data: None, error: Some(message) }
            },
        }
    }
}

/// Reports the outcome of each provider under the provider's name, in the
/// order given.
pub fn collect_book_results(outcomes: Vec<(String, Result<OrderBookResponse, ProviderError>)>) -> (r: Vec<(String, ProviderBookResult)>)
    ensures
        r@.len() == outcomes@.len(),
        forall|i: int| 0 <= i < r@.len() ==> {
            &&& (#[trigger] r@[i]).0@ == outcomes@[i].0@
            &&& reports(r@[i].1, outcomes@[i].1)
            &&& r@[i].1.is_consistent()
        },
{
    let ghost original = outcomes@;
    let mut rest = outcomes;
    let mut r: Vec<(String, ProviderBookResult)> = Vec::new();
    while rest.len() > 0
        invariant
            r@.len() + rest@.len() == original.len(),
            rest@ == original.skip(r@.len() as int),
            forall|i: int| 0 <= i < r@.len() ==> {
                &&& (#[trigger] r@[i]).0@ == original[i].0@
                &&& reports(r@[i].1, original[i].1)
                &&& r@[i].1.is_consistent()
            },
        decreases rest@.len(),
    {
        let (name, outcome) = rest.remove(0);
        assert(rest@ =~= original.skip(r@.len() + 1 as int));
        let report = ProviderBookResult::from_outcome(outcome);
        r.push((name, report));
    }
    r
}


/// The (price, quantity) level of a raw book row: its first two entries, when
/// it has at least two.
pub open spec fn row_level(row: Seq<Seq<char>>) -> Option<(Seq<char>, Seq<char>)> {
    if row.len() >= 2 {
        Some((row[0], row[1]))
    } else {
        None
    }
}

/// The levels of raw book rows: rows with fewer than two entries are
/// skipped, the others keep their order.
pub open spec fn book_levels(rows: Seq<Seq<Seq<char>>>) -> Seq<(Seq<char>, Seq<char>)> {
    rows.filter_map(|row: Seq<Seq<char>>| row_level(row))
}

/// Turns raw book rows, each a list of strings starting with price and
/// quantity, into (price, quantity) levels; malformed rows are skipped.
pub fn levels_from_rows(rows: &Vec<Vec<String>>) -> (r: Vec<(String, String)>)
    ensures
        r.deep_view() == book_levels(rows.deep_view()),
{
    let mut r: Vec<(String, String)> = Vec::new();
    let mut i: usize = 0;
    while i < rows.len()
        invariant
            i <= rows@.len(),
            r.deep_view() == book_levels(rows.deep_view().take(i as int)),
        decreases rows@.len() - i,
    {
        let row = &rows[i];
        let ghost rows_dv = rows.deep_view();
        assert(rows_dv.take(i + 1 as int).drop_last() =~= rows_dv.take(i as int));
        assert(rows_dv.take(i + 1 as int).last() == rows_dv[i as int]);
        assert(rows_dv[i as int] =~= row.deep_view());
        if row.len() >= 2 {
            let price = row[0].clone();
            let quantity = row[1].clone();
            r.push((price, quantity));
            assert(r.deep_view() =~= book_levels(rows_dv.take(i as int)) + seq![(row@[0]@, row@[1]@)]);
        } else {
            assert(r.deep_view() =~= book_levels(rows_dv.take(i as int)));
        }
        i = i + 1;
    }
    assert(rows.deep_view().take(rows@.len() as int) =~= rows.deep_view());
    r
}

/// The levels of one row: its first two entries when it has at least two,
/// nothing otherwise.
pub proof fn lemma_book_levels_single(row: Seq<Seq<char>>)
    ensures
        row.len() >= 2 ==> book_levels(seq![row]) == seq![(row[0], row[1])],
        row.len() < 2 ==> book_levels(seq![row]).len() == 0,
{
    let rows = seq![row];
    assert(rows.drop_last() =~= Seq::<Seq<Seq<char>>>::empty());
    assert(book_levels(rows.drop_last()) =~= Seq::empty());
    assert(rows.last() == row);
    if row.len() >= 2 {
        assert(book_levels(rows) =~= book_levels(rows.drop_last()) + seq![(row[0], row[1])]);
    } else {
        assert(book_levels(rows) =~= book_levels(rows.drop_last()));
    }
}

/// Rows are handled one by one: the levels of two runs of rows one after
/// the other are the levels of the first run followed by those of the second.
pub proof fn lemma_book_levels_concat(a: Seq<Seq<Seq<char>>>, b: Seq<Seq<Seq<char>>>)
    ensures
        book_levels(a + b) == book_levels(a) + book_levels(b),
    decreases b.len(),
{
    if b.len() == 0 {
        assert(a + b =~= a);
        assert(book_levels(a) + book_levels(b) =~= book_levels(a));
    } else {
        lemma_book_levels_concat(a, b.drop_last());
        assert((a + b).drop_last() =~= a + b.drop_last());
        assert((a + b).last() == b.last());
        match row_level(b.last()) {
            Some(l) => {
                assert(book_levels(a) + book_levels(b) =~= book_levels(a) + book_levels(b.drop_last()) + seq![l]);
            },
            None => {},
        }
    }
}

/// Skipping malformed rows never adds levels, and every level comes from a
/// row with at least two entries, in the order of the rows.
pub proof fn lemma_book_levels_from_rows(rows: Seq<Seq<Seq<char>>>)
    ensures
        book_levels(rows).len() <= rows.len(),
        (forall|i: int| 0 <= i < rows.len() ==> (#[trigger] rows[i]).len() >= 2) ==> book_levels(rows)
            == Seq::new(rows.len(), |i: int| (rows[i][0], rows[i][1])),
    decreases rows.len(),
{
    if rows.len() > 0 {
        lemma_book_levels_from_rows(rows.drop_last());
        if forall|i: int| 0 <= i < rows.len() ==> (#[trigger] rows[i]).len() >= 2 {
            assert forall|i: int| 0 <= i < rows.drop_last().len() implies (
            #[trigger] rows.drop_last()[i]).len() >= 2 by {
                assert(rows.drop_last()[i] == rows[i]);
            }
            assert(rows[rows.len() - 1].len() >= 2);
            assert(book_levels(rows) =~= Seq::new(rows.len(), |i: int| (rows[i][0], rows[i][1])));
        }
    } else {
        assert(book_levels(rows) =~= Seq::new(rows.len(), |i: int| (rows[i][0], rows[i][1])));
    }
}

} // verus!
