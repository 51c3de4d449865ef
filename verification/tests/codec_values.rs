use corsair_top::frame::{keep_reading, LastRead};
use corsair_top::frame::{
    block_read_fetch, block_read_header, block_read_payload, block_read_reply_len,
    block_write_frame, finish_reply, next_read_len, wire_reply_len, BRIDGE_COMMAND,
};
use corsair_top::linear11::{decode_linear11, uptime_seconds, Linear11};

fn word(mantissa: i32, exponent: i32) -> Linear11 {
    Linear11 { mantissa, exponent }
}

fn value(w: Linear11) -> f64 {
    (w.mantissa as f64) * 2.0_f64.powi(w.exponent)
}

#[test]
fn linear11_positive_exponent() {
    let w = decode_linear11(&[0x34, 0x12]);
    assert_eq!(w, word(564, 2));
    assert_eq!(value(w), 2256.0);
}

#[test]
fn linear11_negative_exponent() {
    // 0xd3 >> 3 = 26 -> -6; mantissa 3 * 256 + 0x20 = 800; 800 / 64 = 12.5
    let w = decode_linear11(&[0x20, 0xd3]);
    assert_eq!(w, word(800, -6));
    assert_eq!(value(w), 12.5);
}

#[test]
fn linear11_negative_mantissa() {
    assert_eq!(decode_linear11(&[0xff, 0x07]), word(-1, 0));
    assert_eq!(decode_linear11(&[0x01, 0x04]), word(-1023, 0));
}

#[test]
fn linear11_mantissa_1024_stays_positive() {
    assert_eq!(decode_linear11(&[0x00, 0x04]), word(1024, 0));
}

#[test]
fn linear11_extreme_exponents() {
    assert_eq!(decode_linear11(&[0x00, 0xf8]), word(0, -1));
    assert_eq!(decode_linear11(&[0x00, 0x80]), word(0, -16));
    assert_eq!(decode_linear11(&[0x00, 0x78]), word(0, 15));
}

#[test]
fn linear11_short_reply_is_zero() {
    assert_eq!(decode_linear11(&[]), word(0, 0));
    assert_eq!(decode_linear11(&[0x55]), word(0, 0));
}

#[test]
fn linear11_reads_only_two_bytes() {
    assert_eq!(decode_linear11(&[0x34, 0x12, 0xff]), decode_linear11(&[0x34, 0x12]));
}

#[test]
fn uptime_little_endian() {
    assert_eq!(uptime_seconds(&[0x10, 0x0e]), 3600);
    assert_eq!(uptime_seconds(&[0xff, 0xff, 0x01]), 65535);
    assert_eq!(uptime_seconds(&[0x10]), 0);
}

#[test]
fn block_read_frames() {
    assert_eq!(block_read_header(7, 0x9a), vec![0x13, 0x03, 0x06, 0x01, 0x07, 0x07, 0x9a]);
    assert_eq!(block_read_fetch(2), vec![0x08, 0x07, 0x02]);
    assert_eq!(block_read_reply_len(2), 3);
    assert_eq!(BRIDGE_COMMAND, 0);
}

#[test]
fn block_read_payload_keeps_asked_bytes() {
    assert_eq!(block_read_payload(vec![1, 2, 3], 2), vec![1, 2]);
    assert_eq!(block_read_payload(vec![1], 2), vec![1]);
    assert_eq!(block_read_payload(vec![], 1), Vec::<u8>::new());
}

#[test]
fn block_write_frame_layout() {
    assert_eq!(block_write_frame(0xe7, &[5]), vec![0x13, 0x01, 0x04, 0x02, 0xe7, 0x05]);
    assert_eq!(block_write_frame(0x00, &[]), vec![0x13, 0x01, 0x04, 0x01, 0x00]);
}

#[test]
fn block_write_frame_length_wraps() {
    let data = vec![0u8; 255];
    let frame = block_write_frame(0x10, &data);
    assert_eq!(frame.len(), 260);
    assert_eq!(frame[3], 0);
}

#[test]
fn wire_and_reply_sizes() {
    assert_eq!(wire_reply_len(3), 7);
    assert_eq!(wire_reply_len(0), 1);
    assert_eq!(finish_reply(vec![1, 2, 3, 4], 3), vec![1, 2, 3]);
    assert_eq!(finish_reply(vec![1], 3), vec![1]);
}

#[test]
fn read_chunks() {
    assert_eq!(next_read_len(7, 0), 7);
    assert_eq!(next_read_len(600, 100), 256);
    assert_eq!(next_read_len(600, 500), 100);
}

#[test]
fn read_loop_stops() {
    assert!(keep_reading(7, 0, LastRead::Start));
    assert!(!keep_reading(0, 0, LastRead::Start));
    assert!(keep_reading(7, 3, LastRead::Got(3)));
    assert!(!keep_reading(7, 3, LastRead::Got(0)));
    assert!(!keep_reading(7, 3, LastRead::Failed));
    assert!(!keep_reading(7, 7, LastRead::Got(4)));
}
