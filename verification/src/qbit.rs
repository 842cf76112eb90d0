//! The decision core of the qBittorrent download-manager adapter.
//!
//! The adapter is stateful: construction performs one login call and keeps
//! the resulting session for its whole lifetime; it never re-authenticates.
//! The network transport lives outside this library.  Everything the adapter
//! decides — whether login succeeded, which URL to call, which form fields
//! and query parameters to send, how to read a response status, and which
//! record a lookup by hash selects — is a pure function here, with a
//! contract, and the transport shell only carries bytes back and forth.

use vstd::prelude::*;

use crate::error::AppError;
use crate::text::{dec_string, normalize_base_url, strip_trailing_slashes, u64_to_decimal};
use crate::torrent::{TorrentInfo, TorrentInfoView};

verus! {

/// A transport status code in the success range.
pub open spec fn is_success_status(code: u16) -> bool {
    200 <= code < 300
}

/// An established download-manager session: the authenticated state of the
/// adapter.  The backend's cookie itself is opaque transport data held by
/// the shell; the session's plain data is the normalized endpoint every
/// subsequent call is addressed to.  A value of this type exists only after
/// a successful login.
#[derive(Debug, Clone)]
pub struct Session {
    pub base_url: String,
}

/// The observed outcome of the login call: `None` when the call could not be
/// made at all, `Some(code)` when the backend answered with status `code`.
///
/// Decides the adapter's one state transition, from unauthenticated to
/// authenticated.  Login is attempted exactly once; any outcome short of a
/// success status is fatal to construction (`Err` with the startup message),
/// not a runtime taxonomy error, since no caller exists yet.
pub fn establish_session(base_url: &str, login_outcome: Option<u16>) -> (r: Result<Session, String>)
    ensures
        r is Ok <==> (login_outcome matches Some(code) && is_success_status(code)),
        r matches Ok(s) ==> s.base_url@ == strip_trailing_slashes(base_url@),
        login_outcome is None ==> (r matches Err(m) && m@ == "Failed to connect to qBittorrent"@),
        login_outcome matches Some(code) ==> is_success_status(code) || (r matches Err(m) && m@
            == "qBittorrent auth failed with status "@ + dec_string(code as nat)),
{
    match login_outcome {
        None => Err("Failed to connect to qBittorrent".to_owned()),
        Some(code) => {
            if 200 <= code && code < 300 {
                Ok(Session { base_url: normalize_base_url(base_url) })
            } else {
                Err(
                    "qBittorrent auth failed with status ".to_owned().concat(
                        u64_to_decimal(code as u64).as_str(),
                    ),
                )
            }
        },
    }
}

/// The login endpoint for a base URL, normalized the same way construction
/// normalizes it.
pub fn login_url(base_url: &str) -> (r: String)
    ensures
        r@ == strip_trailing_slashes(base_url@) + "/api/v2/auth/login"@,
{
    normalize_base_url(base_url).concat("/api/v2/auth/login")
}

/// The form fields of the login call: the credentials, under their fixed
/// field names.
pub fn login_form(username: &str, password: &str) -> (f: Vec<(String, String)>)
    ensures
        f@.len() == 2,
        f@[0].0@ == "username"@ && f@[0].1@ == username@,
        f@[1].0@ == "password"@ && f@[1].1@ == password@,
{
    let mut f: Vec<(String, String)> = Vec::new();
    f.push(("username".to_owned(), username.to_owned()));
    f.push(("password".to_owned(), password.to_owned()));
    f
}

impl Session {
    /// The submission endpoint.
    pub fn add_url(&self) -> (r: String)
        ensures
            r@ == self.base_url@ + "/api/v2/torrents/add"@,
    {
        self.base_url.clone().concat("/api/v2/torrents/add")
    }

    /// The listing endpoint, also used for lookups by hash.
    pub fn info_url(&self) -> (r: String)
        ensures
            r@ == self.base_url@ + "/api/v2/torrents/info"@,
    {
        self.base_url.clone().concat("/api/v2/torrents/info")
    }
}

/// The form fields of a submission: the sources under the fixed field name
/// `urls`, and the category field only when a category was supplied — an
/// absent optional is omitted, never sent as an empty value.
pub fn add_torrent_form(urls: &str, category: Option<&str>) -> (f: Vec<(String, String)>)
    ensures
        f@.len() >= 1 && f@[0].0@ == "urls"@ && f@[0].1@ == urls@,
        category matches Some(c) ==> f@.len() == 2 && f@[1].0@ == "category"@ && f@[1].1@ == c@,
        category is None ==> f@.len() == 1,
{
    let mut f: Vec<(String, String)> = Vec::new();
    f.push(("urls".to_owned(), urls.to_owned()));
    if let Some(c) = category {
        f.push(("category".to_owned(), c.to_owned()));
    }
    f
}

/// The query parameters of a listing call: `filter` and `category` attached
/// only when present, in that order, omitted when absent.
pub fn torrent_list_query(filter: Option<&str>, category: Option<&str>) -> (q: Vec<
    (String, String),
>)
    ensures
        q@.len() == (if filter is Some { 1int } else { 0int }) + (if category is Some {
            1int
        } else {
            0int
        }),
        filter matches Some(fv) ==> q@[0].0@ == "filter"@ && q@[0].1@ == fv@,
        category matches Some(c) ==> q@[q@.len() - 1].0@ == "category"@ && q@[q@.len() - 1].1@
            == c@,
{
    let mut q: Vec<(String, String)> = Vec::new();
    if let Some(fv) = filter {
        q.push(("filter".to_owned(), fv.to_owned()));
    }
    if let Some(c) = category {
        q.push(("category".to_owned(), c.to_owned()));
    }
    q
}

/// The query parameter of a lookup by hash: the listing call scoped to the
/// one requested hash.
pub fn torrent_hash_query(hash: &str) -> (q: Vec<(String, String)>)
    ensures
        q@.len() == 1,
        q@[0].0@ == "hashes"@ && q@[0].1@ == hash@,
{
    let mut q: Vec<(String, String)> = Vec::new();
    q.push(("hashes".to_owned(), hash.to_owned()));
    q
}

/// Reads the status of a submission response: success statuses succeed, every
/// other status becomes `ExternalService` with the status embedded in the
/// message.
pub fn interpret_add_status(status: u16) -> (r: Result<(), AppError>)
    ensures
        r is Ok <==> is_success_status(status),
        !is_success_status(status) ==> (r matches Err(e) && e matches AppError::ExternalService(d)
            && d@ == "qBittorrent add failed: "@ + dec_string(status as nat)),
{
    if 200 <= status && status < 300 {
        Ok(())
    } else {
        Err(
            AppError::ExternalService(
                "qBittorrent add failed: ".to_owned().concat(u64_to_decimal(status as u64).as_str()),
            ),
        )
    }
}

/// Selects the record a lookup by hash returns, out of the records the
/// backend sent back for that hash: the first one, without further
/// inspection; zero records mean `NotFound` with the hash embedded.
pub fn select_torrent(torrents: Vec<TorrentInfo>, hash: &str) -> (r: Result<TorrentInfo, AppError>)
    ensures
        torrents@.len() > 0 ==> (r matches Ok(t) && t == torrents@[0]),
        torrents@.len() == 0 ==> (r matches Err(e) && e matches AppError::NotFound(d) && d@
            == "No torrent with hash "@ + hash@),
{
    let mut torrents = torrents;
    if torrents.len() > 0 {
        Ok(torrents.remove(0))
    } else {
        Err(AppError::NotFound("No torrent with hash ".to_owned().concat(hash)))
    }
}

/// What the backend's lookup-by-hash scoping returns: the records whose hash
/// equals the requested one, in the backend's order.
pub open spec fn records_matching(records: Seq<TorrentInfoView>, hash: Seq<char>) -> Seq<
    TorrentInfoView,
> {
    records.filter(|t: TorrentInfoView| t.hash == hash)
}

/// The record-level model of a lookup by hash: the backend scopes its record
/// set to the requested hash, and the adapter takes the first of what came
/// back, or reports nothing found.
pub open spec fn spec_get_torrent(records: Seq<TorrentInfoView>, hash: Seq<char>) -> Option<
    TorrentInfoView,
> {
    if records_matching(records, hash).len() > 0 {
        Some(records_matching(records, hash)[0])
    } else {
        None
    }
}

/// Every element of a filtered record set occurs in the record set itself.
proof fn lemma_filter_element_of(
    records: Seq<TorrentInfoView>,
    pred: spec_fn(TorrentInfoView) -> bool,
    i: int,
)
    requires
        0 <= i < records.filter(pred).len(),
    ensures
        exists|j: int| 0 <= j < records.len() && (#[trigger] records[j]) == records.filter(pred)[i],
    decreases records.len(),
{
    reveal(Seq::filter);
    broadcast use vstd::seq_lib::group_filter_ensures;

    let f = records.filter(pred);
    if records.len() > 0 {
        let sub = records.drop_last().filter(pred);
        if i < sub.len() {
            lemma_filter_element_of(records.drop_last(), pred, i);
            let j = choose|j: int|
                0 <= j < records.drop_last().len() && (#[trigger] records.drop_last()[j]) == sub[i];
            assert(records[j] == sub[i]);
            assert(f[i] == sub[i]);
        } else {
            assert(records[records.len() - 1] == f[i]);
        }
    }
}

/// A lookup by hash against a record set returns a record exactly when some
/// record carries the requested hash, and the record it returns carries that
/// hash itself; when no record does, the lookup returns nothing.
pub proof fn lemma_get_torrent_by_hash(records: Seq<TorrentInfoView>, hash: Seq<char>)
    ensures
        (exists|i: int| 0 <= i < records.len() && (#[trigger] records[i]).hash == hash)
            <==> spec_get_torrent(records, hash) is Some,
        spec_get_torrent(records, hash) matches Some(t) ==> t.hash == hash,
{
    let pred = |t: TorrentInfoView| t.hash == hash;
    let filtered = records.filter(pred);
    if exists|i: int| 0 <= i < records.len() && (#[trigger] records[i]).hash == hash {
        let i = choose|i: int| 0 <= i < records.len() && (#[trigger] records[i]).hash == hash;
        records.lemma_filter_contains(pred, i);
        assert(filtered.contains(records[i]));
        assert(filtered.len() > 0);
    }
    if filtered.len() > 0 {
        records.lemma_filter_pred(pred, 0);
        assert(pred(filtered[0]));
        lemma_filter_element_of(records, pred, 0);
    }
}

/// Idempotence of lookups: with the backend's record set unchanged between
/// two lookups of the same hash, both return the same record (or both return
/// nothing).
pub proof fn lemma_get_torrent_idempotent(
    records: Seq<TorrentInfoView>,
    hash: Seq<char>,
    first: Option<TorrentInfoView>,
    second: Option<TorrentInfoView>,
)
    requires
        first == spec_get_torrent(records, hash),
        second == spec_get_torrent(records, hash),
    ensures
        first == second,
{
}

} // verus!
