use rust_wal_cake_writer::lsn::{lsn_text, parse_lsn_hex};

#[test]
fn lsn_text_is_hex_halves() {
    assert_eq!(lsn_text(0x1_0000_0002), "1/2");
    assert_eq!(lsn_text(0), "0/0");
    assert_eq!(lsn_text(0x0000_000A_0000_00FF), "A/FF");
    assert_eq!(lsn_text(16), "0/10");
}

#[test]
fn parse_lsn_hex_reads_hex_halves() {
    assert_eq!(parse_lsn_hex("16/B374D848"), Some((0x16u64 << 32) | 0xB374D848));
    assert_eq!(parse_lsn_hex("0/0"), Some(0));
    assert_eq!(parse_lsn_hex("1/2/3"), None);
    assert_eq!(parse_lsn_hex("12"), None);
    assert_eq!(parse_lsn_hex("/1"), None);
    assert_eq!(parse_lsn_hex("x/1"), None);
}

#[test]
fn small_halves_round_trip() {
    for lsn in [0u64, 0x9_0000_0009, 0x3_0000_0000, 7] {
        assert_eq!(parse_lsn_hex(&lsn_text(lsn)), Some(lsn));
    }
}

#[test]
fn every_position_round_trips() {
    for lsn in [10u64, 16, 0x16_B374_D848, u64::MAX, 0xFFFF_FFFF, 0x1_0000_0000] {
        assert_eq!(parse_lsn_hex(&lsn_text(lsn)), Some(lsn));
    }
}

#[test]
fn lowercase_lsn_text_reads_back() {
    for v in [0u64, 0x10, 0xAB_CDEF, 0x1_0000_00FF, 0xDEAD_BEEF_CAFE_F00D, u64::MAX] {
        let text = format!("{:x}/{:x}", v >> 32, v & 0xFFFF_FFFF);
        assert_eq!(parse_lsn_hex(&text), Some(v));
        assert_eq!(parse_lsn_hex(&lsn_text(v)), Some(v));
    }
}
