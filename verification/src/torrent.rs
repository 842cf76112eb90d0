//! The download side of the gateway: the download data model, the capability
//! interface for "submit a source, list downloads, fetch one download's
//! status", and the deterministic in-memory client.
//!
//! A download's progress is a fraction in [0, 1].  The library carries it in
//! permille (thousandths), so that the bound is a provable invariant; the
//! transport shell converts to and from the backend's fractional form.

use vstd::prelude::*;

use crate::error::AppError;

verus! {

/// What a caller submits to start a download: one or more source URIs in a
/// single string, and an optional target category.
#[derive(Debug, Clone)]
pub struct AddTorrentParams {
    pub urls: String,
    pub category: Option<String>,
}

/// Optional status filter and category for listing downloads.  Both are
/// backend-defined values passed through verbatim.
#[derive(Debug, Clone)]
pub struct TorrentListParams {
    pub filter: Option<String>,
    pub category: Option<String>,
}

/// One download's status as the backend reports it.  `hash` is the stable
/// lookup key; `state` is a backend-owned value passed through verbatim;
/// `category` is the empty string when unset, never absent.
#[derive(Debug, Clone)]
pub struct TorrentInfo {
    pub hash: String,
    pub name: String,
    pub size: i64,
    pub progress_permille: u32,
    pub state: String,
    pub num_seeds: i64,
    pub num_leechs: i64,
    pub category: String,
    pub added_on: i64,
    pub eta: i64,
    pub dlspeed: i64,
}

/// Mathematical model of a `TorrentInfo`.
#[verifier::ext_equal]
pub ghost struct TorrentInfoView {
    pub hash: Seq<char>,
    pub name: Seq<char>,
    pub size: int,
    pub progress_permille: int,
    pub state: Seq<char>,
    pub num_seeds: int,
    pub num_leechs: int,
    pub category: Seq<char>,
    pub added_on: int,
    pub eta: int,
    pub dlspeed: int,
}

impl View for TorrentInfo {
    type V = TorrentInfoView;

    open spec fn view(&self) -> TorrentInfoView {
        TorrentInfoView {
            hash: self.hash@,
            name: self.name@,
            size: self.size as int,
            progress_permille: self.progress_permille as int,
            state: self.state@,
            num_seeds: self.num_seeds as int,
            num_leechs: self.num_leechs as int,
            category: self.category@,
            added_on: self.added_on as int,
            eta: self.eta as int,
            dlspeed: self.dlspeed as int,
        }
    }
}

impl TorrentInfoView {
    /// Validity of a download record: progress is a fraction in [0, 1],
    /// carried in permille.
    pub open spec fn wf(self) -> bool {
        0 <= self.progress_permille <= 1000
    }
}

/// Every record in a returned list is well formed.
pub open spec fn all_torrents_wf(v: Seq<TorrentInfo>) -> bool {
    forall|i: int| 0 <= i < v.len() ==> (#[trigger] v[i])@.wf()
}

/// Capability interface for a download manager.
///
/// All failure taxonomy kinds a method may report are fixed here: submission
/// and listing fail only with `ExternalService`; a lookup by hash fails with
/// `NotFound` when no record matches, or `ExternalService` when the backend
/// call itself failed.
pub trait TorrentClient {
    /// Instructs the backend to begin fetching `urls`.  Idempotency is
    /// backend-defined and not enforced here.
    fn add_torrent(&self, urls: &str, category: Option<&str>) -> (r: Result<(), AppError>)
        ensures
            r matches Err(e) ==> e matches AppError::ExternalService(_),
    ;

    /// Lists downloads, optionally scoped by a backend-defined status filter
    /// and category, in the backend's order.
    fn list_torrents(&self, filter: Option<&str>, category: Option<&str>) -> (r: Result<
        Vec<TorrentInfo>,
        AppError,
    >)
        ensures
            r matches Err(e) ==> e matches AppError::ExternalService(_),
            r matches Ok(v) ==> all_torrents_wf(v@),
    ;

    /// Fetches the status of the download identified by `hash`.
    fn get_torrent(&self, hash: &str) -> (r: Result<TorrentInfo, AppError>)
        ensures
            r matches Err(e) ==> e matches AppError::ExternalService(_) || e matches
                AppError::NotFound(_),
            r matches Ok(t) ==> t@.wf(),
    ;
}

/// The one canned record the fake download manager reports: progress 750
/// permille (0.75) in state "downloading".
pub open spec fn mock_torrent_view() -> TorrentInfoView {
    TorrentInfoView {
        hash: "abcdef1234567890"@,
        name: "Mock.Torrent.Name"@,
        size: 1_500_000_000,
        progress_permille: 750,
        state: "downloading"@,
        num_seeds: 10,
        num_leechs: 3,
        category: "movies"@,
        added_on: 1_700_000_000,
        eta: 3600,
        dlspeed: 5_000_000,
    }
}

/// Deterministic in-memory download manager: no I/O, accepts every
/// submission, reports one canned record.
#[derive(Debug, Clone)]
pub struct FakeTorrentClient;

impl FakeTorrentClient {
    /// Builds the canned record.
    pub fn mock_torrent() -> (t: TorrentInfo)
        ensures
            t@ == mock_torrent_view(),
    {
        let t = TorrentInfo {
            hash: "abcdef1234567890".to_owned(),
            name: "Mock.Torrent.Name".to_owned(),
            size: 1_500_000_000,
            progress_permille: 750,
            state: "downloading".to_owned(),
            num_seeds: 10,
            num_leechs: 3,
            category: "movies".to_owned(),
            added_on: 1_700_000_000,
            eta: 3600,
            dlspeed: 5_000_000,
        };
        proof {
            assert(t@ =~= mock_torrent_view());
        }
        t
    }
}

impl TorrentClient for FakeTorrentClient {
    /// Always reports success, regardless of input.
    fn add_torrent(&self, urls: &str, category: Option<&str>) -> (r: Result<(), AppError>)
        ensures
            r is Ok,
    {
        Ok(())
    }

    /// Always returns exactly one record: the canned one.
    fn list_torrents(&self, filter: Option<&str>, category: Option<&str>) -> (r: Result<
        Vec<TorrentInfo>,
        AppError,
    >)
        ensures
            r matches Ok(v) && v@.len() == 1 && v@[0]@ == mock_torrent_view(),
    {
        let mut v: Vec<TorrentInfo> = Vec::new();
        v.push(Self::mock_torrent());
        Ok(v)
    }

    /// Always returns the canned record, whatever the hash.
    fn get_torrent(&self, hash: &str) -> (r: Result<TorrentInfo, AppError>)
        ensures
            r matches Ok(t) && t@ == mock_torrent_view(),
    {
        Ok(Self::mock_torrent())
    }
}

} // verus!
