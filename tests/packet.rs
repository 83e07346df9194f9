use calipertron::packet::{decode_samples, encode_samples, MAX_PACKET_SIZE, SAMPLES_PER_PACKET};

#[test]
fn samples_per_packet_is_half_the_packet() {
    assert_eq!(MAX_PACKET_SIZE, 64);
    assert_eq!(SAMPLES_PER_PACKET, 32);
}

#[test]
fn samples_are_little_endian() {
    assert_eq!(encode_samples(&[0x1234, 0x00ff, 0xff00]), vec![0x34, 0x12, 0xff, 0x00, 0x00, 0xff]);
    assert_eq!(encode_samples(&[]), Vec::<u8>::new());
}

#[test]
fn decode_drops_odd_trailing_byte() {
    assert_eq!(decode_samples(&[0x34, 0x12, 0x01]), vec![0x1234]);
    assert_eq!(decode_samples(&[]), Vec::<u16>::new());
}

#[test]
fn full_packet_round_trip() {
    let samples: Vec<u16> = (0..SAMPLES_PER_PACKET as u16).map(|i| i * 1031).collect();
    let bytes = encode_samples(&samples);
    assert_eq!(bytes.len(), MAX_PACKET_SIZE);
    assert_eq!(decode_samples(&bytes), samples);
}
