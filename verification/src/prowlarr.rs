//! The decision core of the Prowlarr indexer adapter.
//!
//! Authentication is stateless: every outbound call carries a static API-key
//! header, so there is no session and construction performs no I/O and cannot
//! fail.  As with the download manager, the adapter's pure decisions — which
//! URL to call, which header and query parameters to send — live here with
//! contracts; the transport shell performs the call and parses the body.

use vstd::prelude::*;

use crate::text::{normalize_base_url, strip_trailing_slashes};

verus! {

/// The plain construction data of the indexer adapter: a normalized base
/// endpoint and the API key attached to every call.
#[derive(Debug, Clone)]
pub struct ProwlarrEndpoint {
    pub base_url: String,
    pub api_key: String,
}

impl ProwlarrEndpoint {
    /// Builds the endpoint; no I/O, cannot fail.
    pub fn new(base_url: &str, api_key: &str) -> (e: ProwlarrEndpoint)
        ensures
            e.base_url@ == strip_trailing_slashes(base_url@),
            e.api_key@ == api_key@,
    {
        ProwlarrEndpoint { base_url: normalize_base_url(base_url), api_key: api_key.to_owned() }
    }

    /// The search endpoint.
    pub fn search_url(&self) -> (r: String)
        ensures
            r@ == self.base_url@ + "/api/v1/search"@,
    {
        self.base_url.clone().concat("/api/v1/search")
    }

    /// The authentication header sent with every call: the fixed header name
    /// and the static key.
    pub fn key_header(&self) -> (h: (String, String))
        ensures
            h.0@ == "X-Api-Key"@,
            h.1@ == self.api_key@,
    {
        ("X-Api-Key".to_owned(), self.api_key.clone())
    }
}

/// The query parameters of a search call: the query text always present under
/// `query`, the category filter attached only when supplied — an absent
/// optional is omitted, never sent as an empty value.
pub fn search_query(query: &str, categories: Option<&str>) -> (q: Vec<(String, String)>)
    ensures
        q@.len() >= 1 && q@[0].0@ == "query"@ && q@[0].1@ == query@,
        categories matches Some(c) ==> q@.len() == 2 && q@[1].0@ == "categories"@ && q@[1].1@
            == c@,
        categories is None ==> q@.len() == 1,
{
    let mut q: Vec<(String, String)> = Vec::new();
    q.push(("query".to_owned(), query.to_owned()));
    if let Some(c) = categories {
        q.push(("categories".to_owned(), c.to_owned()));
    }
    q
}

} // verus!
