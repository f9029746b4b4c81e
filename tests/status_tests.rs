use radio_tower::status::{torrent_status_text, TorrentStatus};

const ALL: [(TorrentStatus, u8); 7] = [
    (TorrentStatus::Stopped, 0),
    (TorrentStatus::QueuedVerify, 1),
    (TorrentStatus::Verifying, 2),
    (TorrentStatus::QueuedDownload, 3),
    (TorrentStatus::Downloading, 4),
    (TorrentStatus::QueuedSeed, 5),
    (TorrentStatus::Seeding, 6),
];

#[test]
fn statuses_encode_to_their_wire_values() {
    for (s, v) in ALL {
        assert_eq!(s.to_wire(), v);
    }
}

#[test]
fn statuses_round_trip_through_the_wire() {
    for (s, v) in ALL {
        assert_eq!(TorrentStatus::from_wire(v), Some(s));
        assert_eq!(TorrentStatus::from_wire(s.to_wire()), Some(s));
    }
}

#[test]
fn unknown_wire_values_decode_to_nothing() {
    assert_eq!(TorrentStatus::from_wire(7), None);
    assert_eq!(TorrentStatus::from_wire(255), None);
}

#[test]
fn status_labels() {
    assert_eq!(torrent_status_text(&TorrentStatus::Stopped), "Stopped");
    assert_eq!(torrent_status_text(&TorrentStatus::QueuedVerify), "Queued");
    assert_eq!(torrent_status_text(&TorrentStatus::QueuedDownload), "Queued");
    assert_eq!(torrent_status_text(&TorrentStatus::QueuedSeed), "Queued");
    assert_eq!(torrent_status_text(&TorrentStatus::Verifying), "Verifying");
    assert_eq!(torrent_status_text(&TorrentStatus::Downloading), "Downloading");
    assert_eq!(torrent_status_text(&TorrentStatus::Seeding), "Seeding");
}
