use radio_tower::client::ClientBuilder;
use radio_tower::error::ClientError;
use radio_tower::progress::{build_progress_bar_pieces, Colors};
use radio_tower::status::TorrentStatus;

#[test]
fn seeding_palette() {
    let c = Colors::for_status(&TorrentStatus::Seeding);
    assert_eq!(c.complete, "bg-green-200 dark:bg-green-300");
    assert_eq!(c.incomplete, "bg-green-300 dark:bg-green-600");
    assert_eq!(c.started, "bg-green-400 dark:bg-green-600");
}

#[test]
fn other_statuses_share_the_magenta_palette() {
    for s in [TorrentStatus::Stopped, TorrentStatus::QueuedSeed, TorrentStatus::QueuedVerify] {
        let c = Colors::for_status(&s);
        assert_eq!(c.complete, "bg-magenta-200 dark:bg-magenta-300");
        assert_eq!(c.incomplete, "bg-magenta-300 dark:bg-magenta-300");
        assert_eq!(c.started, "bg-magenta-400 dark:bg-magenta-300");
    }
    assert_eq!(Colors::for_status(&TorrentStatus::Downloading).started, "bg-blue-500 dark:bg-blue-600");
    assert_eq!(
        Colors::for_status(&TorrentStatus::Verifying).complete,
        "bg-verifying-200 dark:bg-verifying-300"
    );
}

#[test]
fn decoded_bitmap_is_painted() {
    // "/w==" is the single byte 0xff; "AA==" is the single byte 0x00.
    let colors = Colors::for_status(&TorrentStatus::Downloading);
    let full = build_progress_bar_pieces(colors.clone(), "/w==", 8).unwrap();
    assert_eq!(full.len(), 1);
    assert_eq!(full[0].color, "bg-blue-400 dark:bg-blue-600");
    assert_eq!(full[0].width, 1);
    let empty = build_progress_bar_pieces(colors, "AA==", 8).unwrap();
    assert_eq!(empty.len(), 1);
    assert_eq!(empty[0].color, "bg-grey-800");
}

#[test]
fn decoded_bitmap_of_two_bytes() {
    // "/wA=" is 0xff 0x00.
    let colors = Colors::for_status(&TorrentStatus::Seeding);
    let chunks = build_progress_bar_pieces(colors, "/wA=", 16).unwrap();
    let got: Vec<(String, usize)> = chunks.into_iter().map(|c| (c.color, c.width)).collect();
    assert_eq!(
        got,
        vec![
            ("bg-green-300 dark:bg-green-600".to_string(), 1),
            ("bg-grey-800".to_string(), 1),
        ]
    );
}

#[test]
fn invalid_base64_is_a_protocol_error() {
    let colors = Colors::for_status(&TorrentStatus::Seeding);
    let r = build_progress_bar_pieces(colors, "not base64!", 8);
    assert!(matches!(r, Err(ClientError::Protocol(_))));
}

#[test]
fn builder_without_url_is_a_config_error() {
    assert!(matches!(ClientBuilder::new().build(), Err(ClientError::Config(_))));
}

#[test]
fn equal_styles_of_neighbouring_groups_merge() {
    // "/wE=" is 0xff 0x01: a full byte (incomplete colour) beside a started one.
    let colors = Colors {
        complete: "c".to_string(),
        incomplete: "x".to_string(),
        started: "x".to_string(),
    };
    let chunks = build_progress_bar_pieces(colors, "/wE=", 16).unwrap();
    let got: Vec<(String, usize)> = chunks.into_iter().map(|c| (c.color, c.width)).collect();
    assert_eq!(got, vec![("x".to_string(), 2)]);
}

#[test]
fn distinct_styles_stay_apart() {
    let colors = Colors {
        complete: "c".to_string(),
        incomplete: "i".to_string(),
        started: "s".to_string(),
    };
    let chunks = build_progress_bar_pieces(colors, "/wE=", 16).unwrap();
    let got: Vec<(String, usize)> = chunks.into_iter().map(|c| (c.color, c.width)).collect();
    assert_eq!(got, vec![("i".to_string(), 1), ("s".to_string(), 1)]);
}
