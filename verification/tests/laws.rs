use db_observer::mysql::common::{read_len_enc_int, read_len_enc_str, write_len_enc_int};
use db_observer::mysql::framer::{encode_packet, Framer};

// Length-encoded integers round-trip, one value per encoded width.
#[test]
fn lenenc_round_trip_values() {
    for v in [
        0u64,
        1,
        0xFA,
        0xFB,
        0xFF,
        0xFFFF,
        0x10000,
        0xFFFFFF,
        0x1000000,
        0xFFFFFFFF,
        0x123456789ABCDEF0,
        u64::MAX,
    ] {
        let enc = write_len_enc_int(v);
        let (back, end) = read_len_enc_int(&enc, 0).unwrap();
        assert_eq!(back, v);
        assert_eq!(end, enc.len());
    }
}

#[test]
fn lenenc_exact_widths() {
    assert_eq!(write_len_enc_int(0xFA), vec![0xFA]);
    assert_eq!(write_len_enc_int(0xFB), vec![0xFC, 0xFB, 0x00]);
    assert_eq!(write_len_enc_int(0x1234), vec![0xFC, 0x34, 0x12]);
    assert_eq!(write_len_enc_int(0x123456), vec![0xFD, 0x56, 0x34, 0x12]);
    let (v, end) = read_len_enc_int(&[0xFC, 0x34, 0x12, 0x99], 0).unwrap();
    assert_eq!(v, 0x1234);
    assert_eq!(end, 3);
}

// The NULL marker and a truncated width head no integer.
#[test]
fn lenenc_rejects_null_and_truncation() {
    assert!(read_len_enc_int(&[0xFB], 0).is_none());
    assert!(read_len_enc_int(&[0xFF], 0).is_none());
    assert!(read_len_enc_int(&[0xFC, 0x01], 0).is_none());
    assert!(read_len_enc_int(&[], 0).is_none());
}

#[test]
fn lenenc_str_reads_content() {
    let bytes = [0x05, b'h', b'e', b'l', b'l', b'o', b'!'];
    let (s, end) = read_len_enc_str(&bytes, 0).unwrap();
    assert_eq!(s, "hello");
    assert_eq!(end, 6);
    assert!(read_len_enc_str(&[0x05, b'h', b'i'], 0).is_none());
}

// Frame round-trip: encoding a packet and feeding it to a fresh framer
// yields the same (length, seq, body) triple.
#[test]
fn framer_round_trip() {
    let body: Vec<u8> = (0u32..300).map(|i| (i % 251) as u8).collect();
    let encoded = encode_packet(body.len() as u32, 7, &body);
    let mut framer = Framer::new();
    let pkts = framer.accept(&encoded);
    assert_eq!(pkts.len(), 1);
    assert_eq!(pkts[0].length, body.len() as u64);
    assert_eq!(pkts[0].seq, 7);
    assert_eq!(pkts[0].body, body);
}

// A packet delivered in pieces is held until complete.
#[test]
fn framer_holds_partial_bytes() {
    let body = vec![1u8, 2, 3, 4, 5];
    let encoded = encode_packet(5, 0, &body);
    let mut framer = Framer::new();
    let first = framer.accept(&encoded[..3]);
    assert!(first.is_empty());
    let second = framer.accept(&encoded[3..]);
    assert_eq!(second.len(), 1);
    assert_eq!(second[0].body, body);
}

// Framer continuation: a 0xFFFFFF-length frame followed by a short final
// frame yields one logical body of size 0xFFFFFF + L.
#[test]
fn framer_continuation_joins_bodies() {
    let max_body = vec![0xABu8; 0xFFFFFF];
    let fin_body = vec![1u8, 2, 3];
    let mut stream = encode_packet(0xFFFFFF, 0, &max_body);
    stream.extend_from_slice(&encode_packet(3, 1, &fin_body));
    let mut framer = Framer::new();
    let pkts = framer.accept(&stream);
    assert_eq!(pkts.len(), 1);
    assert_eq!(pkts[0].seq, 1);
    assert_eq!(pkts[0].body.len(), 0xFFFFFF + 3);
    assert_eq!(&pkts[0].body[0xFFFFFF..], &[1, 2, 3]);
    assert_eq!(pkts[0].body[0], 0xAB);
}

// Two back-to-back frames come out as two packets.
#[test]
fn framer_splits_two_packets() {
    let mut stream = encode_packet(2, 0, &[10, 11]);
    stream.extend_from_slice(&encode_packet(1, 1, &[12]));
    let mut framer = Framer::new();
    let pkts = framer.accept(&stream);
    assert_eq!(pkts.len(), 2);
    assert_eq!(pkts[0].body, vec![10, 11]);
    assert_eq!(pkts[1].body, vec![12]);
}
