use gen4ids::bytes::{read_slots, to_bytes, SLOT_BYTES, WORD_BYTES};

fn native(words: &[u32]) -> Vec<u8> {
    let mut bytes = Vec::new();
    for word in words {
        bytes.extend_from_slice(&word.to_ne_bytes());
    }
    bytes
}

#[test]
fn byte_sizes() {
    assert_eq!(WORD_BYTES, 4);
    assert_eq!(SLOT_BYTES, 40);
}

#[test]
fn to_bytes_of_nothing_is_empty() {
    assert!(to_bytes(&[]).is_empty());
}

#[test]
fn to_bytes_gives_four_bytes_a_word() {
    assert_eq!(to_bytes(&[1]).len(), 4);
    assert_eq!(to_bytes(&[1, 2, 3]).len(), 12);
    assert_eq!(to_bytes(&[0; 10]).len(), 40);
}

#[test]
fn to_bytes_of_zeros_is_zeros() {
    assert_eq!(to_bytes(&[0; 10]), vec![0u8; 40]);
}

#[test]
fn to_bytes_is_the_memory_of_the_words() {
    let words = [0x0403_0201u32, 0xdead_beef, 0, u32::MAX, 1];
    assert_eq!(to_bytes(&words), native(&words));
}

#[test]
fn to_bytes_is_little_or_big_endian() {
    let bytes = to_bytes(&[0x0403_0201]);
    assert!(bytes == vec![1, 2, 3, 4] || bytes == vec![4, 3, 2, 1]);
}

#[test]
fn read_slots_wants_forty_bytes() {
    assert_eq!(read_slots(&[]), None);
    assert_eq!(read_slots(&[0; 4]), None);
    assert_eq!(read_slots(&[0; 39]), None);
    assert_eq!(read_slots(&[0; 41]), None);
    assert_eq!(read_slots(&[0; 80]), None);
    assert!(read_slots(&[0; 40]).is_some());
}

#[test]
fn read_slots_of_zeros_is_zeros() {
    assert_eq!(read_slots(&[0; 40]), Some([0; 10]));
}

#[test]
fn read_slots_reads_the_words_back() {
    let words = [3u32, 7, 42, 1000, 0x0403_0201, 0xdead_beef, u32::MAX, 0, 1, 0x8000_0000];
    assert_eq!(read_slots(&native(&words)), Some(words));
    assert_eq!(read_slots(&to_bytes(&words)), Some(words));
}

#[test]
fn read_slots_does_not_need_alignment() {
    let words = [9u32, 8, 7, 6, 5, 4, 3, 2, 1, 0x0102_0304];
    let mut shifted = vec![0xffu8];
    shifted.extend_from_slice(&native(&words));
    assert_eq!(read_slots(&shifted[1..]), Some(words));
    let mut shifted = vec![0xffu8; 3];
    shifted.extend_from_slice(&native(&words));
    assert_eq!(read_slots(&shifted[3..]), Some(words));
}
