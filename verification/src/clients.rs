//! The Prowlarr-facing client interface: the narrower, provider-specific
//! contract an indexer adapter fulfils, and its deterministic stand-in.

use vstd::prelude::*;

use crate::error::AppError;
use crate::indexer::{all_results_wf, fake_search_result, canned_search_results, SearchResult};
use crate::text::all_blank;

verus! {

/// Client contract against a Prowlarr-compatible search service.  Like every
/// search provider, it trusts its caller to have rejected blank queries, and
/// reports backend failures only as `ExternalService`.
pub trait ProwlarrClient {
    fn search(&self, query: &str, categories: Option<&str>) -> (r: Result<
        Vec<SearchResult>,
        AppError,
    >)
        requires
            !all_blank(query@),
        ensures
            r matches Err(e) ==> e matches AppError::ExternalService(_),
            r matches Ok(v) ==> all_results_wf(v@),
    ;
}

/// Deterministic stand-in for a Prowlarr client: no I/O, one canned result
/// that echoes the query into the title.
#[derive(Debug, Clone)]
pub struct MockProwlarrClient;

impl ProwlarrClient for MockProwlarrClient {
    fn search(&self, query: &str, categories: Option<&str>) -> (r: Result<
        Vec<SearchResult>,
        AppError,
    >)
        ensures
            r matches Ok(v) && v@.len() == 1 && v@[0]@ == fake_search_result(query@),
    {
        Ok(canned_search_results(query))
    }
}

} // verus!
