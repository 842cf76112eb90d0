//! The four gateway operations, generic over the concrete backends.
//!
//! Each operation validates what only the boundary may validate, hands the
//! plain values to the held adapter verbatim, and passes the adapter's
//! success or taxonomy failure through unchanged.  The transport shell binds
//! these to routes and translates the taxonomy to status codes via
//! `AppError::status_code`.

use vstd::prelude::*;

use crate::error::AppError;
use crate::indexer::{all_results_wf, Indexer, SearchParams, SearchResult};
use crate::text::all_blank;
use crate::torrent::{
    all_torrents_wf, AddTorrentParams, TorrentClient, TorrentInfo, TorrentListParams,
};

verus! {

/// Searches for content: a blank (empty or all-whitespace) query is rejected
/// with `BadRequest` before any provider call is attempted; any other query
/// goes to the provider verbatim, together with the optional category filter.
pub fn search<I: Indexer>(provider: &I, params: &SearchParams) -> (r: Result<
    Vec<SearchResult>,
    AppError,
>)
    ensures
        all_blank(params.q@) <==> (r matches Err(e) && e matches AppError::BadRequest(_)),
        all_blank(params.q@) ==> (r matches Err(e) && e matches AppError::BadRequest(d) && d@
            == "query must not be empty"@),
        r matches Err(e) ==> (e matches AppError::BadRequest(_) || e matches
            AppError::ExternalService(_)),
        r matches Ok(v) ==> all_results_wf(v@),
{
    if crate::text::is_blank(params.q.as_str()) {
        return Err(AppError::BadRequest("query must not be empty".to_owned()));
    }
    let categories = match &params.categories {
        Some(c) => Some(c.as_str()),
        None => None,
    };
    provider.search(params.q.as_str(), categories)
}

/// Submits a download: the source string and the optional category go to the
/// manager verbatim; the only failure a caller can see is `ExternalService`.
pub fn download<C: TorrentClient>(manager: &C, params: &AddTorrentParams) -> (r: Result<
    (),
    AppError,
>)
    ensures
        r matches Err(e) ==> e matches AppError::ExternalService(_),
{
    let category = match &params.category {
        Some(c) => Some(c.as_str()),
        None => None,
    };
    manager.add_torrent(params.urls.as_str(), category)
}

/// Lists downloads: the optional backend-defined filter and category go to
/// the manager verbatim, and the records come back in the backend's order.
pub fn list_torrents<C: TorrentClient>(manager: &C, params: &TorrentListParams) -> (r: Result<
    Vec<TorrentInfo>,
    AppError,
>)
    ensures
        r matches Err(e) ==> e matches AppError::ExternalService(_),
        r matches Ok(v) ==> all_torrents_wf(v@),
{
    let filter = match &params.filter {
        Some(f) => Some(f.as_str()),
        None => None,
    };
    let category = match &params.category {
        Some(c) => Some(c.as_str()),
        None => None,
    };
    manager.list_torrents(filter, category)
}

/// Fetches one download's status by hash: `NotFound` when the manager has no
/// matching record, `ExternalService` when the backend call itself failed.
pub fn get_torrent<C: TorrentClient>(manager: &C, hash: &str) -> (r: Result<TorrentInfo, AppError>)
    ensures
        r matches Err(e) ==> (e matches AppError::ExternalService(_) || e matches
            AppError::NotFound(_)),
        r matches Ok(t) ==> t@.wf(),
{
    manager.get_torrent(hash)
}

} // verus!
