use radio_tower::quantize::{
    classify_byte, classify_pieces, color_runs, quantize, ColorSegment, PieceClass, SegmentColor,
};

fn seg(color: SegmentColor, width: usize) -> ColorSegment {
    ColorSegment { color, width }
}

#[test]
fn zero_piece_count_gives_no_segment() {
    assert_eq!(quantize(&vec![0xff, 0x00], 0), vec![]);
}

#[test]
fn negative_piece_count_gives_no_segment() {
    assert_eq!(quantize(&vec![0xff], -3), vec![]);
}

#[test]
fn empty_bitmap_gives_no_segment() {
    assert_eq!(quantize(&vec![], 40), vec![]);
}

#[test]
fn all_zero_bitmap_is_one_empty_segment() {
    assert_eq!(quantize(&vec![0u8; 5], 40), vec![seg(SegmentColor::Empty, 5)]);
    assert_eq!(quantize(&vec![0u8; 1000], 8000), vec![seg(SegmentColor::Empty, 100)]);
}

#[test]
fn all_zero_bitmap_of_odd_length_spans_every_group() {
    // 250 bytes in groups of 3: 84 groups, the last one of a single byte.
    assert_eq!(quantize(&vec![0u8; 250], 2000), vec![seg(SegmentColor::Empty, 84)]);
}

#[test]
fn all_one_bitmap_is_one_segment_of_full_bytes() {
    let bitmap = vec![0xffu8; 16];
    assert!(classify_pieces(&bitmap, 128).iter().all(|c| *c == PieceClass::Full));
    assert_eq!(quantize(&bitmap, 128), vec![seg(SegmentColor::Incomplete, 16)]);
}

#[test]
fn single_piece_set_is_full() {
    assert_eq!(classify_pieces(&vec![0x80], 1), vec![PieceClass::Full]);
    assert_eq!(quantize(&vec![0x80], 1), vec![seg(SegmentColor::Incomplete, 1)]);
}

#[test]
fn single_piece_unset_is_empty() {
    assert_eq!(classify_pieces(&vec![0x7f], 1), vec![PieceClass::Empty]);
    assert_eq!(quantize(&vec![0x7f], 1), vec![seg(SegmentColor::Empty, 1)]);
}

#[test]
fn two_pieces_one_set_is_half() {
    assert_eq!(classify_pieces(&vec![0x80], 2), vec![PieceClass::Half]);
    assert_eq!(classify_pieces(&vec![0x40], 2), vec![PieceClass::Half]);
    assert_eq!(quantize(&vec![0x40], 2), vec![seg(SegmentColor::Started, 1)]);
}

#[test]
fn bits_beyond_piece_count_are_ignored() {
    // Three pieces: only the top three bits count.
    assert_eq!(classify_pieces(&vec![0xe0], 3), vec![PieceClass::Full]);
    assert_eq!(classify_pieces(&vec![0xff], 3), vec![PieceClass::Full]);
    assert_eq!(classify_pieces(&vec![0x1f], 3), vec![PieceClass::Empty]);
    assert_eq!(quantize(&vec![0x1f], 3), quantize(&vec![0x00], 3));
}

#[test]
fn bytes_beyond_piece_count_are_ignored() {
    assert_eq!(classify_pieces(&vec![0xff, 0xff, 0xff], 9).len(), 2);
    assert_eq!(classify_pieces(&vec![0x00, 0x80, 0xff], 9), vec![PieceClass::Empty, PieceClass::Full]);
}

#[test]
fn byte_classes_follow_counts() {
    assert_eq!(classify_byte(8, 8), PieceClass::Full);
    assert_eq!(classify_byte(5, 8), PieceClass::Half);
    assert_eq!(classify_byte(4, 8), PieceClass::Started);
    assert_eq!(classify_byte(1, 8), PieceClass::Started);
    assert_eq!(classify_byte(0, 8), PieceClass::Empty);
    assert_eq!(classify_byte(3, 5), PieceClass::Half);
    assert_eq!(classify_byte(2, 5), PieceClass::Started);
    assert_eq!(classify_byte(5, 5), PieceClass::Full);
    assert_eq!(classify_byte(2, 2), PieceClass::Full);
    assert_eq!(classify_byte(1, 1), PieceClass::Full);
}

#[test]
fn group_scores_use_four_per_byte() {
    // One byte per group: weight 3 is over half of 4, weight 2 is not.
    let classes = vec![PieceClass::Full, PieceClass::Half, PieceClass::Started, PieceClass::Empty];
    assert_eq!(
        color_runs(&classes),
        vec![
            seg(SegmentColor::Incomplete, 1),
            seg(SegmentColor::Started, 2),
            seg(SegmentColor::Empty, 1),
        ]
    );
}

#[test]
fn neighbouring_groups_of_one_colour_merge() {
    let mut bitmap = vec![0xffu8; 100];
    bitmap.extend(vec![0u8; 100]);
    assert_eq!(
        quantize(&bitmap, 1600),
        vec![seg(SegmentColor::Incomplete, 50), seg(SegmentColor::Empty, 50)]
    );
}

#[test]
fn groups_of_mixed_bytes_are_scored_together() {
    // 200 bytes, groups of two: a full byte beside an empty one weighs 3 of 8.
    let mut bitmap = Vec::new();
    for _ in 0..100 {
        bitmap.push(0xff);
        bitmap.push(0x00);
    }
    assert_eq!(quantize(&bitmap, 1600), vec![seg(SegmentColor::Started, 100)]);
}

#[test]
fn segments_tile_the_bar() {
    // 333 bytes in groups of four: 84 groups.
    let bitmap: Vec<u8> = (0..333u32).map(|i| ((i * 37 + 11) % 256) as u8).collect();
    let segs = quantize(&bitmap, 333 * 8);
    assert_eq!(segs.iter().map(|s| s.width).sum::<usize>(), 84);
    assert!(segs.iter().all(|s| s.width >= 1));
    assert!(segs.windows(2).all(|w| w[0].color != w[1].color));
}

#[test]
fn large_bitmap_has_at_most_a_hundred_groups() {
    let bitmap = vec![0x0fu8; 12345];
    let segs = quantize(&bitmap, 12345 * 8);
    assert_eq!(segs.iter().map(|s| s.width).sum::<usize>(), 100);
    assert_eq!(segs, vec![seg(SegmentColor::Started, 100)]);
}
