use backend::error::AppError;
use backend::prowlarr::{self, ProwlarrEndpoint};
use backend::qbit;
use backend::text;
use backend::torrent::{FakeTorrentClient, TorrentInfo};

fn sample_torrent(hash: &str, name: &str) -> TorrentInfo {
    let mut t = FakeTorrentClient::mock_torrent();
    t.hash = hash.to_string();
    t.name = name.to_string();
    t
}

#[test]
fn test_establish_session_success() {
    let session = qbit::establish_session("http://qbit:8080///", Some(200)).unwrap();
    assert_eq!(session.base_url, "http://qbit:8080");
    assert_eq!(session.add_url(), "http://qbit:8080/api/v2/torrents/add");
    assert_eq!(session.info_url(), "http://qbit:8080/api/v2/torrents/info");
}

#[test]
fn test_establish_session_failures() {
    let err = qbit::establish_session("http://qbit:8080", Some(403)).unwrap_err();
    assert_eq!(err, "qBittorrent auth failed with status 403");
    let err = qbit::establish_session("http://qbit:8080", None).unwrap_err();
    assert_eq!(err, "Failed to connect to qBittorrent");
}

#[test]
fn test_login_request_shape() {
    assert_eq!(qbit::login_url("http://qbit:8080/"), "http://qbit:8080/api/v2/auth/login");
    let form = qbit::login_form("admin", "adminadmin");
    assert_eq!(form.len(), 2);
    assert_eq!(form[0], ("username".to_string(), "admin".to_string()));
    assert_eq!(form[1], ("password".to_string(), "adminadmin".to_string()));
}

#[test]
fn test_add_torrent_form_omits_absent_category() {
    let form = qbit::add_torrent_form("magnet:?xt=urn:btih:abc123", None);
    assert_eq!(form.len(), 1);
    assert_eq!(form[0], ("urls".to_string(), "magnet:?xt=urn:btih:abc123".to_string()));

    let form = qbit::add_torrent_form("magnet:?xt=urn:btih:abc123", Some("movies"));
    assert_eq!(form.len(), 2);
    assert_eq!(form[1], ("category".to_string(), "movies".to_string()));
}

#[test]
fn test_torrent_list_query_combinations() {
    assert_eq!(qbit::torrent_list_query(None, None).len(), 0);

    let q = qbit::torrent_list_query(Some("downloading"), None);
    assert_eq!(q, vec![("filter".to_string(), "downloading".to_string())]);

    let q = qbit::torrent_list_query(None, Some("movies"));
    assert_eq!(q, vec![("category".to_string(), "movies".to_string())]);

    let q = qbit::torrent_list_query(Some("downloading"), Some("movies"));
    assert_eq!(
        q,
        vec![
            ("filter".to_string(), "downloading".to_string()),
            ("category".to_string(), "movies".to_string()),
        ]
    );
}

#[test]
fn test_torrent_hash_query() {
    let q = qbit::torrent_hash_query("abcdef1234567890");
    assert_eq!(q, vec![("hashes".to_string(), "abcdef1234567890".to_string())]);
}

#[test]
fn test_interpret_add_status() {
    assert!(qbit::interpret_add_status(200).is_ok());
    assert!(qbit::interpret_add_status(204).is_ok());
    for status in [199, 301, 403, 500] {
        let err = qbit::interpret_add_status(status).unwrap_err();
        match &err {
            AppError::ExternalService(detail) => {
                assert_eq!(detail, &format!("qBittorrent add failed: {status}"));
            }
            other => panic!("expected ExternalService, got {other:?}"),
        }
        assert_eq!(err.status_code(), 502);
    }
}

#[test]
fn test_select_torrent_takes_first_match() {
    let records = vec![
        sample_torrent("aaa", "first"),
        sample_torrent("bbb", "second"),
        sample_torrent("aaa", "third"),
    ];
    // The backend scopes the record set to the requested hash; the adapter
    // takes the first of what came back.
    let scoped: Vec<TorrentInfo> = records.into_iter().filter(|t| t.hash == "aaa").collect();
    let picked = qbit::select_torrent(scoped, "aaa").unwrap();
    assert_eq!(picked.hash, "aaa");
    assert_eq!(picked.name, "first");
}

#[test]
fn test_select_torrent_not_found() {
    let err = qbit::select_torrent(Vec::new(), "feedbeef").unwrap_err();
    match &err {
        AppError::NotFound(detail) => assert_eq!(detail, "No torrent with hash feedbeef"),
        other => panic!("expected NotFound, got {other:?}"),
    }
    assert_eq!(err.status_code(), 404);
}

#[test]
fn test_select_torrent_idempotent() {
    let one = qbit::select_torrent(vec![sample_torrent("aaa", "x")], "aaa").unwrap();
    let two = qbit::select_torrent(vec![sample_torrent("aaa", "x")], "aaa").unwrap();
    assert_eq!(one.hash, two.hash);
    assert_eq!(one.name, two.name);
    assert_eq!(one.progress_permille, two.progress_permille);
    assert_eq!(one.state, two.state);
}

#[test]
fn test_prowlarr_endpoint() {
    let endpoint = ProwlarrEndpoint::new("http://prowlarr:9696/", "key123");
    assert_eq!(endpoint.base_url, "http://prowlarr:9696");
    assert_eq!(endpoint.search_url(), "http://prowlarr:9696/api/v1/search");
    assert_eq!(endpoint.key_header(), ("X-Api-Key".to_string(), "key123".to_string()));
}

#[test]
fn test_prowlarr_search_query() {
    let q = prowlarr::search_query("test movie", None);
    assert_eq!(q, vec![("query".to_string(), "test movie".to_string())]);

    let q = prowlarr::search_query("test movie", Some("2000,5000"));
    assert_eq!(
        q,
        vec![
            ("query".to_string(), "test movie".to_string()),
            ("categories".to_string(), "2000,5000".to_string()),
        ]
    );
}

#[test]
fn test_is_blank() {
    assert!(text::is_blank(""));
    assert!(text::is_blank("   "));
    assert!(text::is_blank(" \t\r\n"));
    assert!(!text::is_blank("a"));
    assert!(!text::is_blank("  a  "));
}

#[test]
fn test_normalize_base_url() {
    assert_eq!(text::normalize_base_url("http://h:1/"), "http://h:1");
    assert_eq!(text::normalize_base_url("http://h:1///"), "http://h:1");
    assert_eq!(text::normalize_base_url("http://h:1"), "http://h:1");
    assert_eq!(text::normalize_base_url(""), "");
    assert_eq!(text::normalize_base_url("///"), "");
}

#[test]
fn test_u64_to_decimal() {
    assert_eq!(text::u64_to_decimal(0), "0");
    assert_eq!(text::u64_to_decimal(7), "7");
    assert_eq!(text::u64_to_decimal(3001), "3001");
    assert_eq!(text::u64_to_decimal(65535), "65535");
}

#[test]
fn test_parse_u16() {
    assert_eq!(text::parse_u16("0"), Some(0));
    assert_eq!(text::parse_u16("007"), Some(7));
    assert_eq!(text::parse_u16("3001"), Some(3001));
    assert_eq!(text::parse_u16("65535"), Some(65535));
    assert_eq!(text::parse_u16("65536"), None);
    assert_eq!(text::parse_u16("99999"), None);
    assert_eq!(text::parse_u16(""), None);
    assert_eq!(text::parse_u16("12a"), None);
    assert_eq!(text::parse_u16("-1"), None);
}
