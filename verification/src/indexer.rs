//! The search side of the gateway: the search data model, the capability
//! interface for "search for content by free-text query and optional category
//! filter", and the deterministic in-memory provider used to validate the
//! gateway without network access.

use vstd::prelude::*;

use crate::error::AppError;
use crate::text::all_blank;

verus! {

/// Query parameters for the gateway's search operation.
#[derive(Debug, Clone)]
pub struct SearchParams {
    pub q: String,
    pub categories: Option<String>,
}

/// One category attached to a search result.
#[derive(Debug, Clone)]
pub struct Category {
    pub id: i32,
    pub name: Option<String>,
}

/// Mathematical model of a `Category`.
#[verifier::ext_equal]
pub ghost struct CategoryView {
    pub id: int,
    pub name: Option<Seq<char>>,
}

impl View for Category {
    type V = CategoryView;

    open spec fn view(&self) -> CategoryView {
        CategoryView {
            id: self.id as int,
            name: match self.name {
                Some(n) => Some(n@),
                None => None,
            },
        }
    }
}

/// A single result returned by a search provider.
#[derive(Debug, Clone)]
pub struct SearchResult {
    pub title: String,
    pub size: i64,
    pub seeders: Option<i32>,
    pub leechers: Option<i32>,
    pub download_url: Option<String>,
    pub magnet_url: Option<String>,
    pub indexer: Option<String>,
    pub categories: Vec<Category>,
}

/// Mathematical model of a `SearchResult`.
#[verifier::ext_equal]
pub ghost struct SearchResultView {
    pub title: Seq<char>,
    pub size: int,
    pub seeders: Option<int>,
    pub leechers: Option<int>,
    pub download_url: Option<Seq<char>>,
    pub magnet_url: Option<Seq<char>>,
    pub indexer: Option<Seq<char>>,
    pub categories: Seq<CategoryView>,
}

pub open spec fn opt_string_view(s: Option<String>) -> Option<Seq<char>> {
    match s {
        Some(x) => Some(x@),
        None => None,
    }
}

pub open spec fn opt_i32_view(n: Option<i32>) -> Option<int> {
    match n {
        Some(x) => Some(x as int),
        None => None,
    }
}

impl View for SearchResult {
    type V = SearchResultView;

    open spec fn view(&self) -> SearchResultView {
        SearchResultView {
            title: self.title@,
            size: self.size as int,
            seeders: opt_i32_view(self.seeders),
            leechers: opt_i32_view(self.leechers),
            download_url: opt_string_view(self.download_url),
            magnet_url: opt_string_view(self.magnet_url),
            indexer: opt_string_view(self.indexer),
            categories: self.categories@.map_values(|c: Category| c@),
        }
    }
}

impl SearchResultView {
    /// Validity of a search result: size is non-negative and the optional
    /// seed and leech counts are non-negative when present.
    pub open spec fn wf(self) -> bool {
        &&& self.size >= 0
        &&& self.seeders matches Some(s) ==> s >= 0
        &&& self.leechers matches Some(l) ==> l >= 0
    }
}

/// Every result in a returned list is well formed.
pub open spec fn all_results_wf(v: Seq<SearchResult>) -> bool {
    forall|i: int| 0 <= i < v.len() ==> (#[trigger] v[i])@.wf()
}

/// Capability interface for a search provider.
///
/// The caller is expected to have rejected blank queries already: validation
/// lives at the gateway boundary (`search`), not here.  The returned list is
/// in whatever order the backend produced; implementations must not reorder,
/// filter or deduplicate it.  On backend failure a provider reports
/// `ExternalService` — never `BadRequest` or `NotFound`.
pub trait Indexer {
    fn search(&self, query: &str, categories: Option<&str>) -> (r: Result<
        Vec<SearchResult>,
        AppError,
    >)
        requires
            !all_blank(query@),
        ensures
            r matches Err(e) ==> e matches AppError::ExternalService(_),
            r matches Ok(v) ==> all_results_wf(v@),
    ;
}

/// The fixed title the fake provider gives its single result: the caller's
/// query text followed by a canned suffix.
pub open spec fn fake_search_title(q: Seq<char>) -> Seq<char> {
    q + " - Mock Result"@
}

/// The single canned result the fake provider returns for the query `q`.
pub open spec fn fake_search_result(q: Seq<char>) -> SearchResultView {
    SearchResultView {
        title: fake_search_title(q),
        size: 1_500_000_000,
        seeders: Some(42 as int),
        leechers: Some(5 as int),
        download_url: Some("https://example.com/download/mock.torrent"@),
        magnet_url: Some("magnet:?xt=urn:btih:mock_hash"@),
        indexer: Some("MockIndexer"@),
        categories: seq![CategoryView { id: 2000, name: Some("Movies"@) }],
    }
}

/// Builds the canned one-result list every deterministic search stand-in
/// returns for the query.
pub fn canned_search_results(query: &str) -> (v: Vec<SearchResult>)
    ensures
        v@.len() == 1,
        v@[0]@ == fake_search_result(query@),
{
    let mut title = query.to_owned();
    title.append(" - Mock Result");
    let mut cats: Vec<Category> = Vec::new();
    cats.push(Category { id: 2000, name: Some("Movies".to_owned()) });
    let result = SearchResult {
        title,
        size: 1_500_000_000,
        seeders: Some(42),
        leechers: Some(5),
        download_url: Some("https://example.com/download/mock.torrent".to_owned()),
        magnet_url: Some("magnet:?xt=urn:btih:mock_hash".to_owned()),
        indexer: Some("MockIndexer".to_owned()),
        categories: cats,
    };
    let mut v: Vec<SearchResult> = Vec::new();
    v.push(result);
    proof {
        assert(v@[0]@ =~~= fake_search_result(query@));
    }
    v
}

/// Deterministic in-memory search provider: no I/O, one canned result that
/// echoes the query into the title.
#[derive(Debug, Clone)]
pub struct FakeIndexer;

impl Indexer for FakeIndexer {
    fn search(&self, query: &str, categories: Option<&str>) -> (r: Result<
        Vec<SearchResult>,
        AppError,
    >)
        ensures
            r matches Ok(v) && v@.len() == 1 && v@[0]@ == fake_search_result(query@),
    {
        Ok(canned_search_results(query))
    }
}

/// For every query, the fake provider's canned result echoes the query
/// verbatim at the start of the title, the title is strictly longer than the
/// query, and the seeder count is the canned 42.
pub proof fn lemma_fake_search_canned(q: Seq<char>)
    ensures
        fake_search_result(q).title.subrange(0, q.len() as int) == q,
        fake_search_result(q).title.len() > q.len(),
        fake_search_result(q).seeders == Some(42 as int),
{
    reveal_strlit(" - Mock Result");
    assert(fake_search_result(q).title.subrange(0, q.len() as int) =~= q);
}

} // verus!
