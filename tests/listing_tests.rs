use radio_tower::listing::{name_matches, parse_value, Order, TorrentSort};

#[test]
fn sort_keys_are_parsed() {
    assert_eq!(parse_value("name".to_string()), TorrentSort::ByName);
    assert_eq!(parse_value("progress".to_string()), TorrentSort::ByProgress);
    assert_eq!(parse_value("status".to_string()), TorrentSort::ByStatus);
    assert_eq!(parse_value("size".to_string()), TorrentSort::BySize);
}

#[test]
fn unknown_sort_key_sorts_by_name() {
    assert_eq!(parse_value("Size".to_string()), TorrentSort::ByName);
    assert_eq!(parse_value(String::new()), TorrentSort::ByName);
}

#[test]
fn order_flips() {
    assert_eq!(Order::Asc.reversed(), Order::Desc);
    assert_eq!(Order::Desc.reversed(), Order::Asc);
}

#[test]
fn name_filter_finds_substrings() {
    assert!(name_matches("debian-12.iso", "12"));
    assert!(name_matches("debian-12.iso", "debian"));
    assert!(name_matches("debian-12.iso", ".iso"));
    assert!(name_matches("debian-12.iso", "debian-12.iso"));
    assert!(!name_matches("debian-12.iso", "Debian"));
    assert!(!name_matches("debian-12.iso", "debian-12.iso "));
    assert!(!name_matches("ab", "abc"));
}

#[test]
fn empty_filter_keeps_every_name() {
    assert!(name_matches("anything", ""));
    assert!(name_matches("", ""));
    assert!(!name_matches("", "a"));
}

#[test]
fn name_filter_compares_characters() {
    assert!(name_matches("café au lait", "é a"));
    assert!(!name_matches("cafe", "é"));
}
