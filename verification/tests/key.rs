use gen4ids::key::{decode_a_b, encode};

#[test]
fn encode_puts_first_low_and_second_high() {
    assert_eq!(encode(0, 0), 0);
    assert_eq!(encode(1, 0), 1);
    assert_eq!(encode(0, 1), 0x0001_0000);
    assert_eq!(encode(0x1234, 0xabcd), 0xabcd_1234);
    assert_eq!(encode(u16::MAX, u16::MAX), u32::MAX);
    assert_eq!(encode(u16::MAX, 0), 0x0000_ffff);
    assert_eq!(encode(0, u16::MAX), 0xffff_0000);
}

#[test]
fn encode_matches_shift_and_or() {
    for (a, b) in [(0u16, 0u16), (7, 9), (12345, 54321), (65535, 1), (1, 65535)] {
        assert_eq!(encode(a, b), (a as u32) | ((b as u32) << 16));
    }
}

#[test]
fn decode_a_b_takes_the_halves() {
    assert_eq!(decode_a_b(0), (0, 0));
    assert_eq!(decode_a_b(0xabcd_1234), (0x1234, 0xabcd));
    assert_eq!(decode_a_b(u32::MAX), (u16::MAX, u16::MAX));
    assert_eq!(decode_a_b(0x0001_0000), (0, 1));
}

#[test]
fn encode_then_decode_round_trips() {
    let samples = [0u16, 1, 2, 255, 256, 257, 4095, 32767, 32768, 54321, 65534, 65535];
    for a in samples {
        for b in samples {
            assert_eq!(decode_a_b(encode(a, b)), (a, b));
        }
    }
}

#[test]
fn decode_then_encode_round_trips() {
    for key in [0u32, 1, 65535, 65536, 65537, 0x8000_0000, 0xdead_beef, u32::MAX] {
        let (a, b) = decode_a_b(key);
        assert_eq!(encode(a, b), key);
    }
}
