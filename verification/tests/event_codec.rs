use magma_core::event::decode::error::Error as DecodeError;
use magma_core::event::encode::error::Error as EncodeError;
use magma_core::event::SequenceNumber;
use magma_core::varint;
use magma_core::{Blake2b, Digest, Event, FixedOutput, Output};

type MyEvent = Event<Blake2b>;

fn digest_of(data: &[u8]) -> Output<Blake2b> {
    Blake2b::digest(data)
}

fn root_of(payload: &[u8]) -> MyEvent {
    Event::Root {
        delta_digest: digest_of(payload),
        delta_size: payload.len() as u64,
    }
}

fn child_without_skip(sequence_number: u64, payload: &[u8]) -> MyEvent {
    let link = digest_of(b"predecessor");
    let delta_digest = digest_of(payload);
    Event::Child {
        sequence_number: SequenceNumber::new(sequence_number).unwrap(),
        predecessor_event_link: link.clone(),
        delta_digest: delta_digest.clone(),
        delta_size: payload.len() as u64,
        skip_event_link: link,
        skip_delta_digest: delta_digest,
        skip_delta_size: payload.len() as u64,
    }
}

fn child_with_skip(sequence_number: u64, payload: &[u8], skipped: &[u8]) -> MyEvent {
    Event::Child {
        sequence_number: SequenceNumber::new(sequence_number).unwrap(),
        predecessor_event_link: digest_of(b"predecessor"),
        delta_digest: digest_of(payload),
        delta_size: payload.len() as u64,
        skip_event_link: digest_of(b"skip ancestor"),
        skip_delta_digest: digest_of(skipped),
        skip_delta_size: skipped.len() as u64,
    }
}

fn encoded(event: &MyEvent) -> Vec<u8> {
    let mut buffer = vec![0u8; event.encoding_length()];
    let written = event.encode(&mut buffer).unwrap();
    assert_eq!(written, buffer.len());
    buffer
}

fn sample_events() -> Vec<MyEvent> {
    vec![
        root_of(b""),
        root_of(&[7u8; 300]),
        Event::Root { delta_digest: digest_of(b"x"), delta_size: u64::MAX },
        child_without_skip(2, b"abc"),
        child_without_skip(248, &[1u8; 70000]),
        child_without_skip(u64::MAX, b""),
        child_with_skip(7, b"abc", b"abcdef"),
        child_with_skip(65537, &[0u8; 256], &[0u8; 247]),
    ]
}

#[test]
fn blake2b_has_64_bytes_and_known_value() {
    assert_eq!(Blake2b::output_size(), 64);
    let empty = digest_of(b"");
    assert_eq!(empty.len(), 64);
    assert_eq!(
        &empty.as_slice()[..8],
        &[0x78, 0x6a, 0x02, 0xf7, 0x42, 0x01, 0x59, 0x03]
    );
    assert_ne!(digest_of(b"a").as_slice(), digest_of(b"b").as_slice());
    assert_eq!(digest_of(b"a"), digest_of(b"a"));
}

#[test]
fn root_round_trip() {
    let root = root_of(b"");
    assert_eq!(root.encoding_length(), 1 + 64 + 1);
    let bytes = encoded(&root);
    assert_eq!(bytes[0], 0x00);
    assert_eq!(&bytes[1..65], digest_of(b"").as_slice());
    assert_eq!(bytes[65], 0);
    let decoded = MyEvent::decode(&bytes).unwrap();
    assert_eq!(decoded, root);
    assert_eq!(decoded.size(), 0);
    assert_eq!(decoded.delta_digest(), &digest_of(b""));
}

#[test]
fn child_with_collapsed_skip() {
    let child = child_without_skip(2, b"abc");
    assert_eq!(child.encoding_length(), 1 + 64 + 64 + 1);
    let bytes = encoded(&child);
    assert_eq!(bytes.len(), 130);
    // a non-zero varu64 stores one less than the number
    assert_eq!(bytes[0], 1);
    assert_eq!(&bytes[1..65], digest_of(b"predecessor").as_slice());
    assert_eq!(&bytes[65..129], digest_of(b"abc").as_slice());
    assert_eq!(bytes[129], 3);
    let decoded = MyEvent::decode(&bytes).unwrap();
    assert_eq!(decoded, child);
    match decoded {
        Event::Child {
            predecessor_event_link,
            delta_digest,
            delta_size,
            skip_event_link,
            skip_delta_digest,
            skip_delta_size,
            ..
        } => {
            assert_eq!(skip_event_link, predecessor_event_link);
            assert_eq!(skip_delta_digest, delta_digest);
            assert_eq!(skip_delta_size, delta_size);
        }
        Event::Root { .. } => panic!("a child was encoded"),
    }
}

#[test]
fn child_with_independent_skip() {
    let child = child_with_skip(7, b"abc", b"abcdef");
    assert_eq!(child.encoding_length(), 1 + 64 + 64 + 1 + 64 + 64 + 1);
    let bytes = encoded(&child);
    assert_eq!(bytes[0], 6);
    assert_eq!(&bytes[130..194], digest_of(b"skip ancestor").as_slice());
    assert_eq!(&bytes[194..258], digest_of(b"abcdef").as_slice());
    assert_eq!(bytes[258], 6);
    let decoded = MyEvent::decode(&bytes).unwrap();
    assert_eq!(decoded, child);
    match decoded {
        Event::Child { predecessor_event_link, skip_event_link, .. } => {
            assert_ne!(skip_event_link, predecessor_event_link);
            assert_eq!(skip_event_link, digest_of(b"skip ancestor"));
            assert_eq!(predecessor_event_link, digest_of(b"predecessor"));
        }
        Event::Root { .. } => panic!("a child was encoded"),
    }
}

#[test]
fn encode_decode_event() {
    for event in sample_events() {
        let bytes = encoded(&event);
        let decoded = MyEvent::decode(&bytes).unwrap();
        assert_eq!(event, decoded);
    }
}

#[test]
fn first_byte_of_an_encoded_root_event_is_zero() {
    for payload in [&b""[..], &b"a"[..], &[9u8; 1000][..]] {
        assert_eq!(encoded(&root_of(payload))[0], 0);
    }
}

#[test]
fn first_byte_of_an_encoded_child_event_is_not_zero() {
    for number in [2u64, 3, 247, 248, 249, 256, 70000, u64::MAX] {
        assert!(encoded(&child_without_skip(number, b"p"))[0] >= 1);
    }
}

#[test]
fn next_bytes_of_an_encoded_root_event_contain_digest() {
    for payload in [&b""[..], &b"a"[..], &[9u8; 1000][..]] {
        let root = root_of(payload);
        let bytes = encoded(&root);
        let digest = root.delta_digest();
        assert_eq!(&bytes[1..digest.len() + 1], digest.as_slice());
    }
}

#[test]
fn last_bytes_of_an_encoded_root_event_contain_size_as_varu64() {
    for size in [0u64, 1, 247, 248, 255, 256, 65535, 65536, 1 << 40, u64::MAX] {
        let root: MyEvent = Event::Root { delta_digest: digest_of(b"d"), delta_size: size };
        let bytes = encoded(&root);
        let (n, rest) = varu64::decode(&bytes[65..]).unwrap();
        assert_eq!(n, root.size());
        assert!(rest.is_empty());
    }
}

#[test]
fn encoding_never_panics_from_incorrect_out_buffer_size() {
    for event in sample_events() {
        let length = event.encoding_length();
        for size in [0usize, 1, 64, 65, length - 1, length, length + 1, length + 100] {
            let mut out = vec![0xaau8; size];
            let res = event.encode(&mut out);
            if size < length {
                assert_eq!(res, Err(EncodeError::OutBufferTooSmall));
                assert!(out.iter().all(|b| *b == 0xaa));
            } else {
                assert_eq!(res, Ok(length));
                assert_eq!(&out[..length], &encoded(&event)[..]);
                assert!(out[length..].iter().all(|b| *b == 0xaa));
            }
        }
    }
}

#[test]
fn decoding_never_panics_from_incorrect_out_buffer_size() {
    for event in sample_events() {
        let bytes = encoded(&event);
        for keep in 0..bytes.len() {
            let res = MyEvent::decode(&bytes[..keep]);
            assert!(res.is_ok() || res.is_err());
        }
    }
}

#[test]
fn truncated_encodings_give_the_error_of_the_missing_part() {
    let child = encoded(&child_with_skip(7, b"abc", b"abcdef"));
    assert_eq!(MyEvent::decode(&child[..0]), Err(DecodeError::DecodeInputIsLengthZero));
    assert_eq!(MyEvent::decode(&child[..1]), Err(DecodeError::OutBufferTooSmall));
    assert_eq!(MyEvent::decode(&child[..64]), Err(DecodeError::OutBufferTooSmall));
    assert_eq!(MyEvent::decode(&child[..128]), Err(DecodeError::OutBufferTooSmall));
    assert_eq!(
        MyEvent::decode(&child[..129]),
        Err(DecodeError::DecodeDeltaSizeFromVaru64 {
            source: varint::DecodeError::UnexpectedEndOfInput
        })
    );
    // cut behind the delta size, the bytes are a child without a skip link of its own
    assert!(MyEvent::decode(&child[..130]).is_ok());
    assert_eq!(MyEvent::decode(&child[..131]), Err(DecodeError::OutBufferTooSmall));
    assert_eq!(MyEvent::decode(&child[..257]), Err(DecodeError::OutBufferTooSmall));
    assert_eq!(
        MyEvent::decode(&child[..258]),
        Err(DecodeError::DecodeSkipDeltaSizeFromVaru64 {
            source: varint::DecodeError::UnexpectedEndOfInput
        })
    );
    let root = encoded(&root_of(b""));
    assert_eq!(MyEvent::decode(&root[..1]), Err(DecodeError::OutBufferTooSmall));
    assert_eq!(
        MyEvent::decode(&root[..65]),
        Err(DecodeError::DecodeRootSizeFromVaru64 {
            source: varint::DecodeError::UnexpectedEndOfInput
        })
    );
}

#[test]
fn one_byte_input_is_rejected() {
    assert_eq!(MyEvent::decode(&[0x01]), Err(DecodeError::OutBufferTooSmall));
    assert_eq!(
        MyEvent::decode(&[0xf8]),
        Err(DecodeError::DecodeSequenceNumberFromVaru64 {
            source: varint::DecodeError::UnexpectedEndOfInput
        })
    );
}

#[test]
fn sequence_number_errors() {
    // 248 stored in the long form of 42: not the shortest encoding
    let mut bytes = vec![248u8, 42];
    bytes.extend_from_slice(&[0u8; 200]);
    assert_eq!(
        MyEvent::decode(&bytes),
        Err(DecodeError::DecodeSequenceNumberFromVaru64 {
            source: varint::DecodeError::NonCanonical { encoded_number: 42 }
        })
    );
    // the largest varu64 has no successor
    let mut bytes = vec![255u8; 9];
    bytes.extend_from_slice(&[0u8; 200]);
    assert_eq!(
        MyEvent::decode(&bytes),
        Err(DecodeError::DecodeSequenceNumberFromVaru64 {
            source: varint::DecodeError::EncodedNonZeroValueOverflowed
        })
    );
}

#[test]
fn size_errors_carry_the_reason() {
    let mut root = vec![0u8; 65];
    root.extend_from_slice(&[249, 0, 42]);
    assert_eq!(
        MyEvent::decode(&root),
        Err(DecodeError::DecodeRootSizeFromVaru64 {
            source: varint::DecodeError::NonCanonical { encoded_number: 42 }
        })
    );
    let mut child = vec![5u8];
    child.extend_from_slice(&[1u8; 128]);
    child.extend_from_slice(&[248, 1]);
    assert_eq!(
        MyEvent::decode(&child),
        Err(DecodeError::DecodeDeltaSizeFromVaru64 {
            source: varint::DecodeError::NonCanonical { encoded_number: 1 }
        })
    );
}

#[test]
fn decoded_child_has_sequence_number_of_at_least_two() {
    let mut bytes = vec![1u8];
    bytes.extend_from_slice(&[3u8; 128]);
    bytes.push(0);
    let event = MyEvent::decode(&bytes).unwrap();
    assert_eq!(event.sequence_number(), 2);
    match event {
        Event::Child { sequence_number, .. } => assert_eq!(sequence_number.get(), 2),
        Event::Root { .. } => panic!("the first byte was not zero"),
    }
}

#[test]
fn root_ignores_what_follows_the_size() {
    let root = root_of(b"abc");
    let mut bytes = encoded(&root);
    let length = bytes.len();
    bytes.extend_from_slice(&[1, 2, 3]);
    let decoded = MyEvent::decode(&bytes).unwrap();
    assert_eq!(decoded, root);
    assert_eq!(&encoded(&decoded)[..], &bytes[..length]);
}

#[test]
fn reencoding_gives_the_prefix_that_was_decoded() {
    // a skip block whose link repeats the predecessor link is read, and not written again
    let link = digest_of(b"predecessor");
    let mut bytes = vec![4u8];
    bytes.extend_from_slice(link.as_slice());
    bytes.extend_from_slice(digest_of(b"abc").as_slice());
    bytes.push(3);
    bytes.extend_from_slice(link.as_slice());
    bytes.extend_from_slice(digest_of(b"other").as_slice());
    bytes.push(9);
    let decoded = MyEvent::decode(&bytes).unwrap();
    let again = encoded(&decoded);
    assert_eq!(again.len(), 130);
    assert_eq!(&again[..], &bytes[..130]);
    for event in sample_events() {
        let bytes = encoded(&event);
        let again = encoded(&MyEvent::decode(&bytes).unwrap());
        assert_eq!(again, bytes);
    }
}

#[test]
fn sequence_number_is_never_zero() {
    assert!(SequenceNumber::new(0).is_none());
    assert_eq!(SequenceNumber::new(1).unwrap().get(), 1);
    assert_eq!(SequenceNumber::new(u64::MAX).unwrap().get(), u64::MAX);
}

#[test]
fn events_compare_field_by_field() {
    assert_eq!(root_of(b"a"), root_of(b"a"));
    assert_ne!(root_of(b"a"), root_of(b"b"));
    assert_ne!(root_of(b"a"), Event::Root { delta_digest: digest_of(b"a"), delta_size: 2 });
    assert_ne!(root_of(b"abc"), child_without_skip(2, b"abc"));
    assert_eq!(child_with_skip(7, b"a", b"b"), child_with_skip(7, b"a", b"b"));
    assert_ne!(child_with_skip(7, b"a", b"b"), child_with_skip(8, b"a", b"b"));
    assert_ne!(child_with_skip(7, b"a", b"b"), child_with_skip(7, b"a", b"c"));
    assert_ne!(child_with_skip(7, b"a", b"b"), child_with_skip(7, b"c", b"b"));
    assert_ne!(child_with_skip(7, b"a", b"ab"), child_with_skip(7, b"a", b"ba").clone());
    let event = child_with_skip(7, b"a", b"b");
    assert_eq!(event.clone(), event);
}
