use backend::codec;
use backend::torrent::{FakeTorrentClient, TorrentInfo};

fn assert_same_record(a: &TorrentInfo, b: &TorrentInfo) {
    assert_eq!(a.hash, b.hash);
    assert_eq!(a.name, b.name);
    assert_eq!(a.size, b.size);
    assert_eq!(a.progress_permille, b.progress_permille);
    assert_eq!(a.state, b.state);
    assert_eq!(a.num_seeds, b.num_seeds);
    assert_eq!(a.num_leechs, b.num_leechs);
    assert_eq!(a.category, b.category);
    assert_eq!(a.added_on, b.added_on);
    assert_eq!(a.eta, b.eta);
    assert_eq!(a.dlspeed, b.dlspeed);
}

#[test]
fn test_encode_mock_record() {
    let t = FakeTorrentClient::mock_torrent();
    let wire = codec::encode_torrent(&t);
    let expected = "{\"hash\":\"abcdef1234567890\",\"name\":\"Mock.Torrent.Name\",\
                    \"size\":1500000000,\"progress_permille\":750,\"state\":\"downloading\",\
                    \"num_seeds\":10,\"num_leechs\":3,\"category\":\"movies\",\
                    \"added_on\":1700000000,\"eta\":3600,\"dlspeed\":5000000}";
    assert_eq!(wire, expected);
}

#[test]
fn test_round_trip_mock_record() {
    let t = FakeTorrentClient::mock_torrent();
    let wire = codec::encode_torrent(&t);
    let back = codec::parse_torrent(&wire).expect("encoded record must parse");
    assert_same_record(&t, &back);
}

#[test]
fn test_round_trip_negative_and_edge_numbers() {
    let t = TorrentInfo {
        hash: String::new(),
        name: "A name with spaces & symbols: []{},'".to_string(),
        size: i64::MIN,
        progress_permille: 0,
        state: "stalledUP".to_string(),
        num_seeds: -1,
        num_leechs: i64::MAX,
        category: String::new(),
        added_on: 0,
        eta: -1,
        dlspeed: -9,
    };
    let wire = codec::encode_torrent(&t);
    let back = codec::parse_torrent(&wire).expect("encoded record must parse");
    assert_same_record(&t, &back);
}

#[test]
fn test_parse_handwritten_record() {
    let wire = "{\"hash\":\"aa\",\"name\":\"n\",\"size\":1,\"progress_permille\":1000,\
                \"state\":\"s\",\"num_seeds\":0,\"num_leechs\":0,\"category\":\"c\",\
                \"added_on\":-5,\"eta\":0,\"dlspeed\":0}";
    let t = codec::parse_torrent(wire).expect("well-formed record must parse");
    assert_eq!(t.hash, "aa");
    assert_eq!(t.name, "n");
    assert_eq!(t.size, 1);
    assert_eq!(t.progress_permille, 1000);
    assert_eq!(t.state, "s");
    assert_eq!(t.added_on, -5);
}

#[test]
fn test_parse_rejects_malformed_records() {
    assert!(codec::parse_torrent("").is_none());
    assert!(codec::parse_torrent("{}").is_none());
    assert!(codec::parse_torrent("{\"hash\":\"aa\"").is_none());
    assert!(codec::parse_torrent("{\"hash\":\"aa\",\"name\":\"n\",\"size\":x}").is_none());
}

#[test]
fn test_parse_rejects_trailing_text() {
    let t = FakeTorrentClient::mock_torrent();
    let mut wire = codec::encode_torrent(&t);
    assert!(codec::parse_torrent(&wire).is_some());
    wire.push_str("junk");
    assert!(codec::parse_torrent(&wire).is_none());
}
