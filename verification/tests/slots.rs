use gen4ids::slots::{decode, SearchResult, MATCH_CAPACITY, SLOT_WORDS};

#[test]
fn slot_sizes() {
    assert_eq!(SLOT_WORDS, 10);
    assert_eq!(MATCH_CAPACITY, 9);
}

#[test]
fn decode_count_zero_is_empty() {
    assert_eq!(decode(&[0; 10]), "");
}

#[test]
fn decode_count_zero_ignores_stale_slots() {
    assert_eq!(decode(&[0, 11, 22, 33, 44, 55, 66, 77, 88, 99]), "");
}

#[test]
fn decode_three_matches() {
    assert_eq!(decode(&[3, 7, 42, 1000, 0, 0, 0, 0, 0, 0]), "7,42,1000");
}

#[test]
fn decode_one_match_has_no_comma() {
    assert_eq!(decode(&[1, 4294967295, 5, 5, 5, 5, 5, 5, 5, 5]), "4294967295");
}

#[test]
fn decode_keeps_slot_order() {
    assert_eq!(decode(&[4, 9, 3, 9, 1, 0, 0, 0, 0, 0]), "9,3,9,1");
}

#[test]
fn decode_count_nine_uses_every_slot() {
    let text = decode(&[9, 1, 2, 3, 4, 5, 6, 7, 8, 9]);
    assert_eq!(text, "1,2,3,4,5,6,7,8,9");
    assert_eq!(text.split(',').count(), 9);
}

#[test]
fn decode_count_twelve_reads_the_nine_stored() {
    let text = decode(&[12, 10, 20, 30, 40, 50, 60, 70, 80, 90]);
    assert_eq!(text, "10,20,30,40,50,60,70,80,90");
    assert_eq!(text.split(',').count(), 9);
}

#[test]
fn decode_count_ten_and_largest_count_clamp_alike() {
    let stored = "1,1,2,3,5,8,13,21,34";
    assert_eq!(decode(&[10, 1, 1, 2, 3, 5, 8, 13, 21, 34]), stored);
    assert_eq!(decode(&[u32::MAX, 1, 1, 2, 3, 5, 8, 13, 21, 34]), stored);
}

#[test]
fn decode_is_repeatable() {
    let words = [2, 123, 456, 0, 0, 0, 0, 0, 0, 0];
    assert_eq!(decode(&words), decode(&words));
}

#[test]
fn result_from_slots_below_capacity() {
    let result = SearchResult::from_slots(&[3, 7, 42, 1000, 0, 0, 0, 0, 0, 0]);
    assert_eq!(result.reported(), 3);
    assert_eq!(result.count(), 3);
    assert_eq!(result.values(), &vec![7, 42, 1000]);
    assert!(!result.overflowed());
    assert_eq!(result.render(), "7,42,1000");
}

#[test]
fn result_from_empty_slots() {
    let result = SearchResult::from_slots(&[0; 10]);
    assert_eq!(result.reported(), 0);
    assert_eq!(result.count(), 0);
    assert!(result.values().is_empty());
    assert!(!result.overflowed());
    assert_eq!(result.render(), "");
}

#[test]
fn result_at_capacity_is_no_overflow() {
    let result = SearchResult::from_slots(&[9, 1, 2, 3, 4, 5, 6, 7, 8, 9]);
    assert_eq!(result.reported(), 9);
    assert_eq!(result.count(), 9);
    assert!(!result.overflowed());
}

#[test]
fn result_reports_overflow() {
    let result = SearchResult::from_slots(&[12, 1, 2, 3, 4, 5, 6, 7, 8, 9]);
    assert_eq!(result.reported(), 12);
    assert_eq!(result.count(), 9);
    assert_eq!(result.values(), &vec![1, 2, 3, 4, 5, 6, 7, 8, 9]);
    assert!(result.overflowed());
}
