use calipertron::codec::{CodecError, Command, FRAME_LEN};

fn freq(f: f64) -> Command {
    Command::SetFrequency { frequency_khz_bits: f.to_bits() }
}

fn round_trip(c: Command) {
    let mut buf = [0u8; 64];
    let n = c.serialize(&mut buf).unwrap();
    assert_eq!(n, FRAME_LEN);
    assert_eq!(Command::deserialize(&buf[..n]), Some(c));
}

#[test]
fn round_trip_edge_values() {
    for f in [
        12.5,
        0.0,
        -0.0,
        -3.75,
        f64::MIN_POSITIVE / 4.0,
        f64::MAX,
        f64::INFINITY,
        f64::NEG_INFINITY,
        f64::NAN,
    ] {
        round_trip(freq(f));
    }
}

#[test]
fn serialize_writes_tag_then_le_float() {
    let mut buf = [0xaau8; 12];
    let n = freq(12.5).serialize(&mut buf).unwrap();
    assert_eq!(n, 9);
    assert_eq!(&buf[..9], &[0, 0, 0, 0, 0, 0, 0, 0x29, 0x40]);
    assert_eq!(&buf[9..], &[0xaa, 0xaa, 0xaa]);
}

#[test]
fn serialize_matches_postcard_layout() {
    let mut ours = [0u8; 16];
    let n = freq(-1.5).serialize(&mut ours).unwrap();
    let mut theirs = [0u8; 16];
    let t = postcard::to_slice(&(0u32, -1.5f64), &mut theirs).unwrap();
    assert_eq!(&ours[..n], &t[..]);
}

#[test]
fn serialize_buffer_too_small() {
    let mut buf = [7u8; 8];
    assert_eq!(freq(1.0).serialize(&mut buf), Err(CodecError::BufferFull));
    assert_eq!(buf, [7u8; 8]);
    let mut empty: [u8; 0] = [];
    assert_eq!(freq(1.0).serialize(&mut empty), Err(CodecError::BufferFull));
}

#[test]
fn deserialize_rejects_empty() {
    assert_eq!(Command::deserialize(&[]), None);
}

#[test]
fn deserialize_rejects_truncated() {
    let mut buf = [0u8; 9];
    freq(12.5).serialize(&mut buf).unwrap();
    for k in 0..9 {
        assert_eq!(Command::deserialize(&buf[..k]), None);
    }
}

#[test]
fn deserialize_rejects_unknown_tag() {
    let mut buf = [0u8; 9];
    freq(12.5).serialize(&mut buf).unwrap();
    buf[0] = 1;
    assert_eq!(Command::deserialize(&buf), None);
    buf[0] = 0x7f;
    assert_eq!(Command::deserialize(&buf), None);
}

#[test]
fn deserialize_rejects_trailing_bytes() {
    let mut buf = [0u8; 10];
    freq(12.5).serialize(&mut buf).unwrap();
    assert_eq!(Command::deserialize(&buf), None);
}

#[test]
fn deserialize_rejects_bad_varint() {
    let mut buf = [0xffu8; 14];
    buf[5] = 0x00;
    assert_eq!(Command::deserialize(&buf), None);
}

#[test]
fn deserialize_rejects_long_form_tag() {
    let mut buf = [0u8; 10];
    buf[0] = 0x80;
    buf[1] = 0x00;
    buf[2..].copy_from_slice(&12.5f64.to_le_bytes());
    assert_eq!(Command::deserialize(&buf), None);
    assert_eq!(Command::deserialize(&buf[..9]), None);
}

#[test]
fn deserialize_exact_frame_reads_le_float() {
    let mut buf = [0u8; 9];
    buf[1..].copy_from_slice(&(-2.25f64).to_le_bytes());
    assert_eq!(Command::deserialize(&buf), Some(freq(-2.25)));
}
