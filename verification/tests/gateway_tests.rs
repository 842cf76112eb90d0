use backend::clients::{MockProwlarrClient, ProwlarrClient};
use backend::config::Config;
use backend::error::AppError;
use backend::gateway;
use backend::indexer::{FakeIndexer, Indexer, SearchParams};
use backend::torrent::{AddTorrentParams, FakeTorrentClient, TorrentClient, TorrentInfo, TorrentListParams};

fn search_params(q: &str, categories: Option<&str>) -> SearchParams {
    SearchParams { q: q.to_string(), categories: categories.map(str::to_string) }
}

fn list_params(filter: Option<&str>, category: Option<&str>) -> TorrentListParams {
    TorrentListParams {
        filter: filter.map(str::to_string),
        category: category.map(str::to_string),
    }
}

#[test]
fn test_search() {
    let indexer = FakeIndexer;
    let results = gateway::search(&indexer, &search_params("test movie", None)).unwrap();
    assert_eq!(results.len(), 1);
    assert_eq!(results[0].title, "test movie - Mock Result");
    assert_eq!(results[0].seeders, Some(42));
    assert_eq!(results[0].leechers, Some(5));
    assert_eq!(results[0].size, 1_500_000_000);
    assert_eq!(results[0].indexer.as_deref(), Some("MockIndexer"));
    assert_eq!(results[0].categories.len(), 1);
    assert_eq!(results[0].categories[0].id, 2000);
    assert_eq!(results[0].categories[0].name.as_deref(), Some("Movies"));
}

#[test]
fn test_search_title_echoes_query() {
    let indexer = FakeIndexer;
    for q in ["a", "ubuntu 24.04", "Big.Buck.Bunny"] {
        let results = indexer.search(q, Some("2000")).unwrap();
        assert_eq!(results.len(), 1);
        assert!(results[0].title.starts_with(q));
        assert_eq!(results[0].title, format!("{q} - Mock Result"));
        assert_eq!(results[0].seeders, Some(42));
    }
}

#[test]
fn test_search_missing_query() {
    let indexer = FakeIndexer;
    for q in ["", "   ", "\t\n"] {
        let err = gateway::search(&indexer, &search_params(q, None)).unwrap_err();
        match &err {
            AppError::BadRequest(detail) => assert_eq!(detail, "query must not be empty"),
            other => panic!("expected BadRequest, got {other:?}"),
        }
        assert_eq!(err.status_code(), 400);
    }
}

#[test]
fn test_download() {
    let manager = FakeTorrentClient;
    let params = AddTorrentParams { urls: "magnet:?xt=urn:btih:abc123".to_string(), category: None };
    let r = gateway::download(&manager, &params);
    assert!(r.is_ok());
}

#[test]
fn test_download_always_succeeds() {
    let manager = FakeTorrentClient;
    assert!(manager.add_torrent("", None).is_ok());
    assert!(manager.add_torrent("not a uri at all", Some("")).is_ok());
    assert!(manager
        .add_torrent("magnet:?xt=urn:btih:abc123\nhttps://example.com/a.torrent", Some("movies"))
        .is_ok());
}

#[test]
fn test_list_torrents() {
    let manager = FakeTorrentClient;
    let torrents = gateway::list_torrents(&manager, &list_params(None, None)).unwrap();
    assert_eq!(torrents.len(), 1);
    assert_eq!(torrents[0].name, "Mock.Torrent.Name");
    assert_eq!(torrents[0].progress_permille, 750);
    assert_eq!(torrents[0].progress_permille as f64 / 1000.0, 0.75);
    assert_eq!(torrents[0].state, "downloading");
}

#[test]
fn test_get_torrent() {
    let manager = FakeTorrentClient;
    let torrent = gateway::get_torrent(&manager, "abcdef1234567890").unwrap();
    assert_eq!(torrent.hash, "abcdef1234567890");
    assert_eq!(torrent.state, "downloading");
}

fn assert_same_torrent(a: &TorrentInfo, b: &TorrentInfo) {
    assert_eq!(a.hash, b.hash);
    assert_eq!(a.name, b.name);
    assert_eq!(a.size, b.size);
    assert_eq!(a.progress_permille, b.progress_permille);
    assert_eq!(a.state, b.state);
    assert_eq!(a.num_seeds, b.num_seeds);
    assert_eq!(a.num_leechs, b.num_leechs);
    assert_eq!(a.category, b.category);
    assert_eq!(a.added_on, b.added_on);
    assert_eq!(a.eta, b.eta);
    assert_eq!(a.dlspeed, b.dlspeed);
}

#[test]
fn test_get_torrent_idempotent() {
    let manager = FakeTorrentClient;
    let first = gateway::get_torrent(&manager, "abcdef1234567890").unwrap();
    let second = gateway::get_torrent(&manager, "abcdef1234567890").unwrap();
    assert_same_torrent(&first, &second);
}

#[test]
fn test_mock_prowlarr_client() {
    let client = MockProwlarrClient;
    let results = client.search("test movie", None).unwrap();
    assert_eq!(results.len(), 1);
    assert_eq!(results[0].title, "test movie - Mock Result");
    assert_eq!(results[0].seeders, Some(42));
}

#[test]
fn test_error_status_codes() {
    assert_eq!(AppError::ExternalService("x".to_string()).status_code(), 502);
    assert_eq!(AppError::BadRequest("x".to_string()).status_code(), 400);
    assert_eq!(AppError::NotFound("x".to_string()).status_code(), 404);
}

#[test]
fn test_error_describe() {
    assert_eq!(
        AppError::ExternalService("boom".to_string()).describe(),
        "External service error: boom"
    );
    assert_eq!(AppError::BadRequest("bad".to_string()).describe(), "Bad request: bad");
    assert_eq!(AppError::NotFound("gone".to_string()).describe(), "Not found: gone");
    assert_eq!(AppError::NotFound("gone".to_string()).detail(), "gone");
    assert_eq!(AppError::BadRequest("bad".to_string()).detail(), "bad");
    assert_eq!(AppError::ExternalService("boom".to_string()).detail(), "boom");
}

#[test]
fn test_config_defaults_and_bind_addr() {
    let config = Config::from_values(
        Some("http://prowlarr:9696".to_string()),
        Some("api-key".to_string()),
        Some("http://qbit:8080".to_string()),
        Some("admin".to_string()),
        Some("adminadmin".to_string()),
        None,
        None,
    )
    .unwrap();
    assert_eq!(config.host, "0.0.0.0");
    assert_eq!(config.port, 3001);
    assert_eq!(config.bind_addr(), "0.0.0.0:3001");
}

#[test]
fn test_config_explicit_host_port() {
    let config = Config::from_values(
        Some("http://prowlarr:9696".to_string()),
        Some("api-key".to_string()),
        Some("http://qbit:8080".to_string()),
        Some("admin".to_string()),
        Some("adminadmin".to_string()),
        Some("127.0.0.1".to_string()),
        Some("8099".to_string()),
    )
    .unwrap();
    assert_eq!(config.host, "127.0.0.1");
    assert_eq!(config.port, 8099);
    assert_eq!(config.bind_addr(), "127.0.0.1:8099");
}

#[test]
fn test_config_missing_values() {
    let err = Config::from_values(None, None, None, None, None, None, None).unwrap_err();
    assert_eq!(err, "Missing required environment variable: PROWLARR_URL");
    let err = Config::from_values(
        Some("u".to_string()),
        None,
        None,
        None,
        None,
        None,
        None,
    )
    .unwrap_err();
    assert_eq!(err, "Missing required environment variable: PROWLARR_API_KEY");
    let err = Config::from_values(
        Some("u".to_string()),
        Some("k".to_string()),
        None,
        None,
        None,
        None,
        None,
    )
    .unwrap_err();
    assert_eq!(err, "Missing required environment variable: QBIT_URL");
    let err = Config::from_values(
        Some("u".to_string()),
        Some("k".to_string()),
        Some("q".to_string()),
        None,
        None,
        None,
        None,
    )
    .unwrap_err();
    assert_eq!(err, "Missing required environment variable: QBIT_USERNAME");
    let err = Config::from_values(
        Some("u".to_string()),
        Some("k".to_string()),
        Some("q".to_string()),
        Some("user".to_string()),
        None,
        None,
        None,
    )
    .unwrap_err();
    assert_eq!(err, "Missing required environment variable: QBIT_PASSWORD");
}

#[test]
fn test_config_invalid_port() {
    for bad in ["notanumber", "", "-1", "65536", "80 "] {
        let err = Config::from_values(
            Some("u".to_string()),
            Some("k".to_string()),
            Some("q".to_string()),
            Some("user".to_string()),
            Some("pass".to_string()),
            None,
            Some(bad.to_string()),
        )
        .unwrap_err();
        assert_eq!(err, "PORT must be a valid u16", "input {bad:?}");
    }
}
