//! The registry of provider clients and the routing of a request to one of
//! them.

use crate::services::types::{OrderBookRequest, ProviderBookRequest, ProviderError};
use crate::text::{ascii_lowercase, lowercase, to_lowercase};
use vstd::utf8::is_ascii_chars;
use vstd::prelude::*;

verus! {

/// The client registered under `key`, scanning the registry from the front.
pub open spec fn lookup<C>(entries: Seq<(Seq<char>, C)>, key: Seq<char>) -> Option<C>
    decreases entries.len(),
{
    if entries.len() == 0 {
        None
    } else if entries[0].0 == key {
        Some(entries[0].1)
    } else {
        lookup(entries.drop_first(), key)
    }
}

/// Whether no name occurs twice among the registry entries.
pub open spec fn names_distinct<C>(entries: Seq<(Seq<char>, C)>) -> bool {
    forall|i: int, j: int| 0 <= i < j < entries.len() ==> #[trigger] entries[i].0 != #[trigger] entries[j].0
}

/// In a registry whose names are distinct, the lookup of a name finds a
/// client exactly when the registry holds that name with that client, and
/// finds none exactly when the name is not registered.
pub proof fn lemma_lookup_exact<C>(entries: Seq<(Seq<char>, C)>, key: Seq<char>)
    requires
        names_distinct(entries),
    ensures
        forall|x: C| lookup(entries, key) == Some(x) <==> exists|i: int| 0 <= i < entries.len() && #[trigger] entries[i] == (key, x),
        lookup(entries, key) is None <==> forall|i: int| 0 <= i < entries.len() ==> #[trigger] entries[i].0 != key,
    decreases entries.len(),
{
    if entries.len() > 0 {
        let rest = entries.drop_first();
        assert(names_distinct(rest)) by {
            assert forall|i: int, j: int| 0 <= i < j < rest.len() implies #[trigger] rest[i].0 != #[trigger] rest[j].0 by {
                assert(rest[i] == entries[i + 1]);
                assert(rest[j] == entries[j + 1]);
            }
        }
        lemma_lookup_exact(rest, key);
        assert forall|i: int| 0 <= i < rest.len() implies #[trigger] rest[i] == entries[i + 1] by {}
        if entries[0].0 == key {
            assert forall|x: C| lookup(entries, key) == Some(x) <==> exists|i: int| 0 <= i < entries.len() && #[trigger] entries[i] == (key, x) by {
                if exists|i: int| 0 <= i < entries.len() && #[trigger] entries[i] == (key, x) {
                    let i = choose|i: int| 0 <= i < entries.len() && #[trigger] entries[i] == (key, x);
                    if i > 0 {
                        assert(entries[0].0 != entries[i].0);
                    }
                }
            }
        } else {
            assert forall|x: C| lookup(entries, key) == Some(x) <==> exists|i: int| 0 <= i < entries.len() && #[trigger] entries[i] == (key, x) by {
                if exists|i: int| 0 <= i < entries.len() && #[trigger] entries[i] == (key, x) {
                    let i = choose|i: int| 0 <= i < entries.len() && #[trigger] entries[i] == (key, x);
                    assert(rest[i - 1] == (key, x));
                }
                if lookup(entries, key) == Some(x) {
                    let k = choose|k: int| 0 <= k < rest.len() && #[trigger] rest[k] == (key, x);
                    assert(entries[k + 1] == (key, x));
                }
            }
            if !(forall|i: int| 0 <= i < entries.len() ==> #[trigger] entries[i].0 != key) {
                let i = choose|i: int| 0 <= i < entries.len() && #[trigger] entries[i].0 == key;
                assert(rest[i - 1].0 == key);
            }
        }
    }
}

/// The names under which the providers are registered, in registration order.
pub open spec fn provider_names() -> Seq<Seq<char>> {
    seq!["binance"@, "crypto.com"@, "coinbase"@]
}

/// The registry of provider clients, each under the lowercase name of its
/// provider.
pub struct Clients<C> {
    client_map: Vec<(String, C)>,
}

impl<C> View for Clients<C> {
    type V = Seq<(Seq<char>, C)>;

    closed spec fn view(&self) -> Seq<(Seq<char>, C)> {
        self.client_map@.map_values(|entry: (String, C)| (entry.0@, entry.1))
    }
}

impl<C> Clients<C> {
    /// No provider name is registered twice.
    #[verifier::type_invariant]
    spec fn distinct_names(self) -> bool {
        names_distinct(self@)
    }

    /// Registers the three supported providers: Binance as `binance`,
    /// Crypto.com as `crypto.com` and Coinbase as `coinbase`.
    pub fn new(binance: C, crypto_com: C, coinbase: C) -> (r: Self)
        ensures
            r@ == seq![
                (provider_names()[0], binance),
                (provider_names()[1], crypto_com),
                (provider_names()[2], coinbase),
            ],
    {
        let mut client_map: Vec<(String, C)> = Vec::new();
        client_map.push((String::from_str("binance"), binance));
        client_map.push((String::from_str("crypto.com"), crypto_com));
        client_map.push((String::from_str("coinbase"), coinbase));
        proof {
            reveal_strlit("binance");
            reveal_strlit("crypto.com");
            reveal_strlit("coinbase");
            let view = client_map@.map_values(|entry: (String, C)| (entry.0@, entry.1));
            assert(view[0].0.len() == 7 && view[1].0.len() == 10 && view[2].0.len() == 8);
            assert(names_distinct(view));
        }
        let r = Clients { client_map };
        assert(r@ =~= seq![
            (provider_names()[0], binance),
            (provider_names()[1], crypto_com),
            (provider_names()[2], coinbase),
        ]);
        r
    }

    /// The client registered under `provider`, if any: since no name is
    /// registered twice, it is the one client registered under that name.
    pub fn get(&self, provider: &str) -> (r: Option<&C>)
        ensures
            match lookup(self@, provider@) {
                Some(c) => r == Some(&c),
                None => r is None,
            },
            names_distinct(self@),
            match r {
                Some(c) => exists|i: int| 0 <= i < self@.len() && #[trigger] self@[i] == (provider@, *c),
                None => forall|i: int| 0 <= i < self@.len() ==> #[trigger] self@[i].0 != provider@,
            },
    {
        proof {
            use_type_invariant(self);
            lemma_lookup_exact(self@, provider@);
        }
        let key = String::from_str(provider);
        let mut i: usize = 0;
        assert(self@.skip(0) =~= self@);
        while i < self.client_map.len()
            invariant
                i <= self.client_map@.len(),
                key@ == provider@,
                names_distinct(self@),
                lookup(self@, provider@) == lookup(self@.skip(i as int), provider@),
            decreases self.client_map@.len() - i,
        {
            let entry = &self.client_map[i];
            assert(self@.skip(i as int)[0] == (entry.0@, entry.1));
            if entry.0 == key {
                return Some(&entry.1);
            }
            assert(self@.skip(i as int).drop_first() =~= self@.skip(i + 1 as int));
            i = i + 1;
        }
        None
    }

    /// All registered clients with their names, in registration order; each
    /// name occurs once.
    pub fn providers(&self) -> (r: &Vec<(String, C)>)
        ensures
            r@.map_values(|entry: (String, C)| (entry.0@, entry.1)) == self@,
            names_distinct(self@),
    {
        proof {
            use_type_invariant(self);
        }
        &self.client_map
    }
}

/// Routes a request to the client of its provider, whose name is matched
/// after lowercasing: the client gets the same pair and depth. A provider
/// that is not registered is answered with `UnsupportedProvider` naming the
/// lowercased provider.
pub fn route_order_book_request<'a, C>(clients: &'a Clients<C>, request: OrderBookRequest) -> (r:
    Result<(&'a C, ProviderBookRequest), ProviderError>)
    ensures
        match lookup(clients@, lowercase(request.provider@)) {
            Some(c) => r matches Ok((client, provider_request)) && *client == c
                && provider_request.base == request.base && provider_request.quote == request.quote
                && provider_request.depth == request.depth,
            None => r matches Err(ProviderError::UnsupportedProvider(name)) && name@ == lowercase(
                request.provider@,
            ),
        },
        is_ascii_chars(request.provider@) ==> match lookup(clients@, ascii_lowercase(request.provider@)) {
            Some(c) => r matches Ok((client, _)) && *client == c,
            None => r matches Err(ProviderError::UnsupportedProvider(name)) && name@ == ascii_lowercase(
                request.provider@,
            ),
        },
{
    let provider_key = to_lowercase(request.provider.as_str());
    match clients.get(provider_key.as_str()) {
        Some(client) => Ok(
            (
                client,
                ProviderBookRequest { base: request.base, quote: request.quote, depth: request.depth },
            ),
        ),
        None => Err(ProviderError::UnsupportedProvider(provider_key)),
    }
}

/// The request to send to every registered provider when all books are
/// wanted: each provider, in registration order, with its name and a copy of
/// the same pair and depth.
pub fn all_provider_requests<'a, C>(clients: &'a Clients<C>, request: &ProviderBookRequest) -> (r: Vec<
    (String, &'a C, ProviderBookRequest),
>)
    ensures
        r@.len() == clients@.len(),
        names_distinct(clients@),
        forall|i: int|
            0 <= i < r@.len() ==> {
                &&& (#[trigger] r@[i]).0@ == clients@[i].0
                &&& *r@[i].1 == clients@[i].1
                &&& r@[i].2.base@ == request.base@
                &&& r@[i].2.quote@ == request.quote@
                &&& r@[i].2.depth == request.depth
            },
{
    let entries = clients.providers();
    let mut r: Vec<(String, &'a C, ProviderBookRequest)> = Vec::new();
    let mut i: usize = 0;
    while i < entries.len()
        invariant
            i <= entries@.len(),
            entries@.map_values(|entry: (String, C)| (entry.0@, entry.1)) == clients@,
            r@.len() == i,
            forall|j: int|
                0 <= j < i ==> {
                    &&& (#[trigger] r@[j]).0@ == clients@[j].0
                    &&& *r@[j].1 == clients@[j].1
                    &&& r@[j].2.base@ == request.base@
                    &&& r@[j].2.quote@ == request.quote@
                    &&& r@[j].2.depth == request.depth
                },
        decreases entries@.len() - i,
    {
        let entry = &entries[i];
        assert(clients@[i as int] == (entry.0@, entry.1));
        r.push((entry.0.clone(), &entry.1, request.clone()));
        i = i + 1;
    }
    r
}

/// The registry built by `Clients::new` serves exactly the names `binance`,
/// `crypto.com` and `coinbase`, each with the client given for it.
pub proof fn lemma_new_registry_lookup<C>(binance: C, crypto_com: C, coinbase: C, key: Seq<char>)
    ensures
        ({
            let entries = seq![
                (provider_names()[0], binance),
                (provider_names()[1], crypto_com),
                (provider_names()[2], coinbase),
            ];
            &&& key == provider_names()[0] ==> lookup(entries, key) == Some(binance)
            &&& key == provider_names()[1] ==> lookup(entries, key) == Some(crypto_com)
            &&& key == provider_names()[2] ==> lookup(entries, key) == Some(coinbase)
            &&& !provider_names().contains(key) ==> lookup(entries, key) is None
        }),
{
    reveal_strlit("binance");
    reveal_strlit("crypto.com");
    reveal_strlit("coinbase");
    reveal_with_fuel(lookup, 4);
    let entries = seq![
        (provider_names()[0], binance),
        (provider_names()[1], crypto_com),
        (provider_names()[2], coinbase),
    ];
    assert(entries.drop_first() =~= seq![(provider_names()[1], crypto_com), (provider_names()[2], coinbase)]);
    assert(entries.drop_first().drop_first() =~= seq![(provider_names()[2], coinbase)]);
    assert(entries.drop_first().drop_first().drop_first() =~= Seq::<(Seq<char>, C)>::empty());
    assert(provider_names()[0].len() == 7);
    assert(provider_names()[1].len() == 10);
    assert(provider_names()[2].len() == 8);
    assert(provider_names()[0] != provider_names()[1]);
    assert(provider_names()[0] != provider_names()[2]);
    assert(provider_names()[1] != provider_names()[2]);
    if !provider_names().contains(key) {
        assert(key != provider_names()[0]);
        assert(key != provider_names()[1]);
        assert(key != provider_names()[2]);
    }
}

} // verus!
