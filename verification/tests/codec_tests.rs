use fileshare::codec::{decode_field, encode_field, is_valid_utf8, FrameError, FIELD_WIDTH, SENTINEL};
use fileshare::decimal::u64_to_dec;

#[test]
fn encode_pads_to_field_width() {
    let name = b"a.txt".to_vec();
    let buf = encode_field(&name).unwrap();
    assert_eq!(buf.len(), FIELD_WIDTH);
    assert_eq!(&buf[..5], b"a.txt");
    for i in 5..FIELD_WIDTH {
        assert_eq!(buf[i], SENTINEL);
    }
}

#[test]
fn encode_rejects_oversize_name() {
    let name = vec![b'x'; FIELD_WIDTH + 1];
    assert_eq!(encode_field(&name), Err(FrameError::Oversize));
}

#[test]
fn encode_accepts_exact_width_name() {
    let name = vec![b'x'; FIELD_WIDTH];
    let buf = encode_field(&name).unwrap();
    assert_eq!(buf, name);
}

#[test]
fn decode_trims_trailing_padding() {
    let name = b"notes.pdf".to_vec();
    let buf = encode_field(&name).unwrap();
    assert_eq!(decode_field(&buf).unwrap(), name);
}

#[test]
fn round_trip_preserves_name() {
    for name in [&b"a.txt"[..], b"b.bin", b"secret.zip", b"no extension", b""] {
        let v = name.to_vec();
        let buf = encode_field(&v).unwrap();
        assert_eq!(decode_field(&buf).unwrap(), v);
    }
}

#[test]
fn round_trip_preserves_multibyte_name() {
    let name = "r\u{e9}sum\u{e9}.txt".as_bytes().to_vec();
    let buf = encode_field(&name).unwrap();
    assert_eq!(decode_field(&buf).unwrap(), name);
}

#[test]
fn decode_rejects_wrong_width() {
    let buf = vec![b'a'; FIELD_WIDTH - 1];
    assert_eq!(decode_field(&buf), Err(FrameError::BadWidth));
    let buf2 = vec![b'a'; FIELD_WIDTH + 1];
    assert_eq!(decode_field(&buf2), Err(FrameError::BadWidth));
}

#[test]
fn decode_rejects_invalid_text() {
    let mut buf = vec![0xFFu8; 3];
    buf.resize(FIELD_WIDTH, SENTINEL);
    assert_eq!(decode_field(&buf), Err(FrameError::InvalidText));
}

#[test]
fn utf8_checker_matches_std() {
    let samples: Vec<Vec<u8>> = vec![
        b"plain ascii".to_vec(),
        "\u{e9}\u{4e16}\u{754c}\u{1f600}".as_bytes().to_vec(),
        vec![0xC3, 0xA9],
        vec![0xC3],
        vec![0xA9],
        vec![0xE0, 0x80, 0x80],
        vec![0xED, 0xA0, 0x80],
        vec![0xF4, 0x90, 0x80, 0x80],
        vec![0xF0, 0x9F, 0x98, 0x80],
        vec![],
    ];
    for s in samples {
        assert_eq!(is_valid_utf8(&s), std::str::from_utf8(&s).is_ok(), "bytes {:?}", s);
    }
}

#[test]
fn decimal_renders_digits() {
    assert_eq!(u64_to_dec(0), b"0".to_vec());
    assert_eq!(u64_to_dec(7), b"7".to_vec());
    assert_eq!(u64_to_dec(10), b"10".to_vec());
    assert_eq!(u64_to_dec(90210), b"90210".to_vec());
    assert_eq!(u64_to_dec(u64::MAX), u64::MAX.to_string().into_bytes());
}
