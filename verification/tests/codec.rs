use serde::de::{Deserialize, Deserializer, SeqAccess, Visitor};
use serde::ser::{Serialize, SerializeStruct, Serializer};
use termmux::server::client::Pending;
use termmux::server::codec::{
    bytes_wanted, choose_payload, decode_payload, decode_raw, decode_raw_prefix, encode_body,
    encode_payload, encode_raw, encoded_length, unpacked_payload, CodecError, DecodeError,
    Decoding, COMPRESSED_MASK, COMPRESS_THRESH,
};
use termmux::server::pdu::{DecodedPdu, Pdu, PduKind, Ping, Pong};
use termmux::varint::read_u64;

/// A message without fields, as the serialiser sees it.
struct Unit(&'static str);

impl Serialize for Unit {
    fn serialize<S: Serializer>(&self, serializer: S) -> Result<S::Ok, S::Error> {
        serializer.serialize_struct(self.0, 0)?.end()
    }
}

struct Fieldless;

impl<'de> Deserialize<'de> for Fieldless {
    fn deserialize<D: Deserializer<'de>>(deserializer: D) -> Result<Self, D::Error> {
        struct Fields;
        impl<'de> Visitor<'de> for Fields {
            type Value = Fieldless;

            fn expecting(&self, f: &mut std::fmt::Formatter) -> std::fmt::Result {
                f.write_str("a message without fields")
            }

            fn visit_seq<A: SeqAccess<'de>>(self, _seq: A) -> Result<Fieldless, A::Error> {
                Ok(Fieldless)
            }
        }
        deserializer.deserialize_struct("Fieldless", &[], Fields)
    }
}

fn body_of(pdu: &Pdu) -> Vec<u8> {
    match pdu {
        Pdu::Ping(_) => varbincode::serialize(&Unit("Ping")).unwrap(),
        Pdu::Pong(_) => varbincode::serialize(&Unit("Pong")).unwrap(),
        _ => unreachable!("these tests send pings and pongs"),
    }
}

fn encode(pdu: &Pdu, serial: u64) -> Vec<u8> {
    pdu.encode(body_of(pdu), serial).unwrap()
}

fn decode(bytes: &[u8]) -> DecodedPdu {
    match Pdu::decode(bytes).unwrap() {
        Decoding::Done(decoded) => decoded,
        Decoding::Body { serial, kind, body } => {
            let _: Fieldless = varbincode::deserialize(body.as_slice()).unwrap();
            let pdu = match kind {
                PduKind::Ping => Pdu::Ping(Ping {}),
                PduKind::Pong => Pdu::Pong(Pong {}),
                _ => unreachable!("these tests send pings and pongs"),
            };
            DecodedPdu { serial, pdu }
        }
    }
}

#[test]
fn test_frame() {
    let encoded = encode_raw(0x81, 0x42, b"hello", false).unwrap();
    assert_eq!(&encoded, b"\x08\x42\x81\x01hello");
    let decoded = decode_raw(encoded.as_slice()).unwrap();
    assert_eq!(decoded.ident, 0x81);
    assert_eq!(decoded.serial, 0x42);
    assert_eq!(decoded.data, b"hello");
}

#[test]
fn test_frame_lengths() {
    let mut serial = 1;
    for target_len in &[128, 247, 256, 65536, 16777216] {
        let mut payload = Vec::with_capacity(*target_len);
        payload.resize(*target_len, b'a');
        let encoded = encode_raw(0x42, serial, payload.as_slice(), false).unwrap();
        let decoded = decode_raw(encoded.as_slice()).unwrap();
        assert_eq!(decoded.ident, 0x42);
        assert_eq!(decoded.serial, serial);
        assert_eq!(decoded.data, payload);
        serial += 1;
    }
}

#[test]
fn test_pdu_ping() {
    let encoded = encode(&Pdu::Ping(Ping {}), 0x40);
    assert_eq!(&encoded, &[2, 0x40, 1]);
    assert_eq!(
        DecodedPdu {
            serial: 0x40,
            pdu: Pdu::Ping(Ping {})
        },
        decode(encoded.as_slice())
    );
}

#[test]
fn test_pdu_ping_base91() {
    let encoded = base91::slice_encode(&encode(&Pdu::Ping(Ping {}), 0x41));
    assert_eq!(&encoded, &[60, 67, 75, 65]);
    let decoded = base91::slice_decode(&encoded);
    assert_eq!(
        DecodedPdu {
            serial: 0x41,
            pdu: Pdu::Ping(Ping {})
        },
        decode(decoded.as_slice())
    );
}

#[test]
fn test_pdu_pong() {
    let encoded = encode(&Pdu::Pong(Pong {}), 0x42);
    assert_eq!(&encoded, &[2, 0x42, 2]);
    assert_eq!(
        DecodedPdu {
            serial: 0x42,
            pdu: Pdu::Pong(Pong {})
        },
        decode(encoded.as_slice())
    );
}

#[test]
fn test_bogus_pdu() {
    let encoded = encode_raw(0xdeadbeef, 0x42, b"hello", false).unwrap();
    assert_eq!(
        DecodedPdu {
            serial: 0x42,
            pdu: Pdu::Invalid { ident: 0xdeadbeef }
        },
        decode(encoded.as_slice())
    );
}

#[test]
fn ping_is_answered_by_pong_under_the_same_serial() {
    // the client
    let mut pending: Pending<&str> = Pending::new(7);
    let serial = pending.register("the future of the ping").unwrap();
    assert_eq!(serial, 7);
    let request = encode(&Pdu::Ping(Ping {}), serial);
    // the server
    let received = decode(&request);
    assert_eq!(received.pdu, Pdu::Ping(Ping {}));
    assert_eq!(
        received.pdu.kind().and_then(|kind| kind.response()),
        Some(PduKind::Pong)
    );
    let reply = encode(&Pdu::Pong(Pong {}), received.serial);
    // the client again
    let answer = decode(&reply);
    assert_eq!(
        answer,
        DecodedPdu {
            serial: 7,
            pdu: Pdu::Pong(Pong {})
        }
    );
    assert_eq!(pending.complete(answer.serial), Some("the future of the ping"));
    assert_eq!(pending.len(), 0);
}

#[test]
fn frame_round_trip_keeps_all_four_values() {
    let payloads: [&[u8]; 4] = [b"", b"x", b"hello world", &[0xff; 300]];
    for (n, payload) in payloads.iter().enumerate() {
        for &is_compressed in &[false, true] {
            for &ident in &[0u64, 1, 127, 128, 0xdeadbeef, u64::MAX] {
                let serial = (n as u64) << 40 | 3;
                let encoded = encode_raw(ident, serial, payload, is_compressed).unwrap();
                let decoded = decode_raw(&encoded).unwrap();
                assert_eq!(decoded.ident, ident);
                assert_eq!(decoded.serial, serial);
                assert_eq!(&decoded.data, payload);
                assert_eq!(decoded.is_compressed, is_compressed);
            }
        }
    }
}

#[test]
fn frame_says_how_many_bytes_it_took() {
    let mut stream = encode_raw(5, 9, b"abc", false).unwrap();
    let first = stream.len();
    stream.extend_from_slice(&encode_raw(6, 10, b"defg", true).unwrap());
    let (decoded, taken) = decode_raw_prefix(&stream).unwrap();
    assert_eq!(taken, first);
    assert_eq!(decoded.data, b"abc");
    let (decoded, taken) = decode_raw_prefix(&stream[first..]).unwrap();
    assert_eq!(taken, stream.len() - first);
    assert_eq!(decoded.ident, 6);
    assert_eq!(decoded.serial, 10);
    assert_eq!(decoded.data, b"defg");
    assert!(decoded.is_compressed);
}

#[test]
fn declared_length_counts_serial_ident_and_payload() {
    for &(ident, serial, len) in &[(1u64, 1u64, 0usize), (0x81, 0x42, 5), (u64::MAX, 300, 1000)] {
        for &is_compressed in &[false, true] {
            let payload = vec![7u8; len];
            let encoded = encode_raw(ident, serial, &payload, is_compressed).unwrap();
            let (tagged, next) = read_u64(&encoded, 0).unwrap();
            let declared = tagged & !COMPRESSED_MASK;
            assert_eq!(
                declared as usize,
                encoded_length(serial) + encoded_length(ident) + len
            );
            assert_eq!(encoded.len(), next + declared as usize);
            assert_eq!(tagged & COMPRESSED_MASK != 0, is_compressed);
        }
    }
}

#[test]
fn encoded_length_counts_groups_of_seven_bits() {
    assert_eq!(encoded_length(0), 1);
    assert_eq!(encoded_length(127), 1);
    assert_eq!(encoded_length(128), 2);
    assert_eq!(encoded_length(16383), 2);
    assert_eq!(encoded_length(16384), 3);
    assert_eq!(encoded_length(1 << 63), 10);
    assert_eq!(encoded_length(u64::MAX), 10);
}

#[test]
fn the_largest_header_still_makes_a_frame() {
    // A payload of 2^63 bytes is what it takes to be refused, and none can
    // be made; the largest numbers in the header are no obstacle.
    let encoded = encode_raw(u64::MAX, u64::MAX, &[], true).unwrap();
    assert_eq!(encoded.len(), 10 + 10 + 10);
    let decoded = decode_raw(&encoded).unwrap();
    assert_eq!((decoded.ident, decoded.serial), (u64::MAX, u64::MAX));
    assert!(decoded.is_compressed);
}

#[test]
fn truncated_frames_are_refused() {
    let encoded = encode_raw(0x81, 0x42, b"hello", false).unwrap();
    for cut in 0..encoded.len() {
        assert_eq!(
            decode_raw(&encoded[..cut]).unwrap_err(),
            DecodeError::UnexpectedEof
        );
    }
    assert!(decode_raw(&encoded).is_ok());
}

#[test]
fn a_number_too_large_for_64_bits_is_an_overflow() {
    // ten bytes, the tenth being 2
    let mut bytes = vec![0x80u8; 9];
    bytes.push(0x02);
    bytes.extend_from_slice(&[1, 1]);
    assert_eq!(decode_raw(&bytes).unwrap_err(), DecodeError::Overflow);
    // eleven bytes
    let mut bytes = vec![0xffu8; 10];
    bytes.push(0x01);
    assert_eq!(decode_raw(&bytes).unwrap_err(), DecodeError::Overflow);
    // a number that never ends is an end of input, however long it is
    assert_eq!(
        decode_raw(&[0xff; 12]).unwrap_err(),
        DecodeError::UnexpectedEof
    );
    // ten bytes with a tenth of 1 are the largest numbers
    let mut bytes = vec![0xffu8; 9];
    bytes.push(0x01);
    assert_eq!(read_u64(&bytes, 0).unwrap(), (u64::MAX, 10));
}

#[test]
fn a_length_below_the_header_is_refused() {
    // length 1, but serial and identifier take a byte each
    assert_eq!(decode_raw(&[1, 5, 6]).unwrap_err(), DecodeError::BadLength);
    assert_eq!(decode_raw(&[0, 5, 6]).unwrap_err(), DecodeError::BadLength);
    // the identifier 0x81 takes two bytes, whatever it was written in
    assert_eq!(
        decode_raw(&[2, 5, 0x81, 0x01]).unwrap_err(),
        DecodeError::BadLength
    );
    assert!(decode_raw(&[2, 5, 6]).is_ok());
}

#[test]
fn bytes_wanted_leads_a_reader_to_the_end_of_the_frame() {
    let encoded = encode_raw(0x81, 0x42, b"hello", false).unwrap();
    let mut have = 0;
    let mut asked = Vec::new();
    loop {
        let more = bytes_wanted(&encoded[..have]).unwrap();
        if more == 0 {
            break;
        }
        asked.push(more);
        have += more as usize;
    }
    // one byte at a time through the header, then the payload at once
    assert_eq!(asked, vec![1, 1, 1, 1, 5]);
    assert_eq!(have, encoded.len());
    assert_eq!(bytes_wanted(&[1, 5, 6]).unwrap_err(), DecodeError::BadLength);
    // a number that has overflowed is read to its end before that is said
    assert_eq!(bytes_wanted(&[0x80; 10]).unwrap(), 1);
    let mut bytes = vec![0x80u8; 10];
    bytes.push(0);
    assert_eq!(bytes_wanted(&bytes).unwrap_err(), DecodeError::Overflow);
}

#[test]
fn short_payloads_are_never_compressed() {
    for len in 0..=COMPRESS_THRESH {
        let plain = vec![b'a'; len];
        let (data, is_compressed) = encode_payload(plain.clone()).unwrap();
        assert!(!is_compressed);
        assert_eq!(data, plain);
    }
}

#[test]
fn long_payloads_are_compressed_where_that_is_shorter() {
    let plain = vec![b'a'; 1000];
    let (data, is_compressed) = encode_payload(plain.clone()).unwrap();
    assert!(is_compressed);
    assert!(data.len() < plain.len());
    assert_eq!(decode_payload(data, true).unwrap(), plain);

    // 33 bytes that do not repeat: zstd's frame is longer than they are
    let plain: Vec<u8> = (0..33u8).map(|i| i.wrapping_mul(151) ^ 0x5a).collect();
    let (data, is_compressed) = encode_payload(plain.clone()).unwrap();
    assert!(!is_compressed);
    assert_eq!(data, plain);
    assert_eq!(decode_payload(data, false).unwrap(), plain);
}

#[test]
fn the_shorter_form_is_chosen() {
    let plain = vec![1u8, 2, 3, 4];
    assert_eq!(
        choose_payload(plain.clone(), Ok(vec![9, 9, 9])).unwrap(),
        (vec![9, 9, 9], true)
    );
    assert_eq!(
        choose_payload(plain.clone(), Ok(vec![9, 9, 9, 9])).unwrap(),
        (plain.clone(), false)
    );
    assert_eq!(
        choose_payload(plain.clone(), Ok(vec![9; 5])).unwrap(),
        (plain.clone(), false)
    );
    let failed = std::io::Error::new(std::io::ErrorKind::Other, "no");
    assert_eq!(
        choose_payload(plain, Err(failed)).unwrap_err(),
        CodecError::Compress
    );
}

#[test]
fn what_was_compressed_unpacks_to_what_it_was() {
    for len in [33usize, 64, 1000, 70000].iter() {
        let plain: Vec<u8> = (0..*len).map(|i| (i % 5) as u8).collect();
        let (data, is_compressed) = encode_payload(plain.clone()).unwrap();
        assert!(is_compressed, "{} bytes", len);
        assert!(data.len() < plain.len());
        assert_eq!(decode_payload(data, true).unwrap(), plain);
    }
    // a zstd frame of nothing unpacks to nothing
    let empty = zstd::stream::encode_all(&b""[..], 0).unwrap();
    assert_eq!(decode_payload(empty, true).unwrap(), Vec::<u8>::new());
}

#[test]
fn what_does_not_unpack_is_refused() {
    assert_eq!(
        decode_payload(Vec::new(), true).unwrap_err(),
        CodecError::Decompress
    );
    // a frame that is cut short
    let (mut data, _) = encode_payload(vec![7u8; 500]).unwrap();
    data.truncate(data.len() - 1);
    assert_eq!(
        decode_payload(data, true).unwrap_err(),
        CodecError::Decompress
    );
    assert_eq!(
        decode_payload(b"this is no zstd frame".to_vec(), true).unwrap_err(),
        CodecError::Decompress
    );
    let failed = std::io::Error::new(std::io::ErrorKind::Other, "no");
    assert_eq!(
        unpacked_payload(Err(failed)).unwrap_err(),
        CodecError::Decompress
    );
    assert_eq!(unpacked_payload(Ok(vec![1, 2])).unwrap(), vec![1, 2]);
}

#[test]
fn invalid_is_never_sent() {
    assert_eq!(
        Pdu::Invalid { ident: 1 }
            .encode(Vec::new(), 1)
            .unwrap_err(),
        CodecError::InvalidPdu
    );
}

#[test]
fn a_long_body_travels_compressed_and_comes_back() {
    let body = vec![b'z'; 4096];
    let encoded = encode_body(PduKind::WriteToTab, body.clone(), 77).unwrap();
    assert!(encoded.len() < body.len());
    let raw = decode_raw(&encoded).unwrap();
    assert!(raw.is_compressed);
    assert_eq!(raw.ident, 9);
    match Pdu::decode(&encoded).unwrap() {
        Decoding::Body {
            serial,
            kind,
            body: got,
        } => {
            assert_eq!(serial, 77);
            assert_eq!(kind, PduKind::WriteToTab);
            assert_eq!(got, body);
        }
        other => panic!("unexpected {:?}", other),
    }
}

#[test]
fn unknown_idents_leave_the_known_ones_alone() {
    for ident in 0..40u64 {
        let encoded = encode_raw(ident, 0x42, b"", false).unwrap();
        let known = [0, 1, 2, 3, 4, 5, 6, 7, 8, 9, 10, 11, 12, 13, 14, 17].contains(&ident);
        match Pdu::decode(&encoded).unwrap() {
            Decoding::Done(decoded) => {
                assert!(!known);
                assert_eq!(
                    decoded,
                    DecodedPdu {
                        serial: 0x42,
                        pdu: Pdu::Invalid { ident }
                    }
                );
            }
            Decoding::Body { serial, kind, body } => {
                assert!(known);
                assert_eq!(serial, 0x42);
                assert_eq!(kind.ident(), ident);
                assert_eq!(PduKind::from_ident(ident), Some(kind));
                assert!(body.is_empty());
            }
        }
    }
}

#[test]
fn a_broken_frame_is_a_codec_error() {
    assert_eq!(
        Pdu::decode(&[5, 1]).unwrap_err(),
        CodecError::Frame(DecodeError::UnexpectedEof)
    );
}

#[test]
fn the_same_payload_compresses_to_the_same_bytes() {
    let plain: Vec<u8> = (0..5000u32).map(|i| (i % 7) as u8).collect();
    let first = encode_payload(plain.clone()).unwrap();
    let second = encode_payload(plain.clone()).unwrap();
    assert_eq!(first, second);
    assert!(first.1);
    assert_ne!(first.0, plain);
}
