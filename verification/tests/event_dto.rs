use magma_core::event::dto::{Error, Event as EventDto};
use magma_core::replication::request::{Order, PathLength, Request};
use magma_core::replication::{Mode, RequestDTO, RequestDtoError};
use magma_core::{Blake2b, Digest, Event, Output};
use std::convert::TryFrom;

type MyEvent = Event<Blake2b>;
type MyRequest = Request<Blake2b>;

fn child_dto<'a>(number: u64, links: [&'a [u8]; 4]) -> EventDto<'a> {
    EventDto::Child {
        sequence_number: number,
        predecessor_event_link: links[0],
        delta_digest: links[1],
        delta_size: 3,
        skip_event_link: links[2],
        skip_delta_digest: links[3],
        skip_delta_size: 9,
    }
}

#[test]
fn root_dto_becomes_a_root() {
    let digest = [7u8; 64];
    let event = MyEvent::try_from(EventDto::Root { delta_digest: &digest, delta_size: 12 }).unwrap();
    let expected: MyEvent =
        Event::Root { delta_digest: Output::try_from_slice(&digest).unwrap(), delta_size: 12 };
    assert_eq!(event, expected);
}

#[test]
fn child_dto_becomes_a_child() {
    let (a, b, c, d) = ([1u8; 64], [2u8; 64], [3u8; 64], [4u8; 64]);
    let event = MyEvent::try_from(child_dto(2, [&a, &b, &c, &d])).unwrap();
    match event {
        Event::Child {
            sequence_number,
            predecessor_event_link,
            delta_digest,
            delta_size,
            skip_event_link,
            skip_delta_digest,
            skip_delta_size,
        } => {
            assert_eq!(sequence_number.get(), 2);
            assert_eq!(predecessor_event_link.as_slice(), &a);
            assert_eq!(delta_digest.as_slice(), &b);
            assert_eq!(delta_size, 3);
            assert_eq!(skip_event_link.as_slice(), &c);
            assert_eq!(skip_delta_digest.as_slice(), &d);
            assert_eq!(skip_delta_size, 9);
        }
        Event::Root { .. } => panic!("a child was converted"),
    }
}

#[test]
fn dto_with_digest_of_wrong_length() {
    let result = MyEvent::try_from(EventDto::Root { delta_digest: &[1u8; 32], delta_size: 0 });
    assert_eq!(
        result.unwrap_err(),
        Error::InvalidDigestLength { expected_length: 64, actual_length: 32 }
    );
    let good = [0u8; 64];
    let lengths = [63usize, 65, 0, 128];
    for wrong in 0..4 {
        let bad = vec![0u8; lengths[wrong]];
        let mut links: [&[u8]; 4] = [&good, &good, &good, &good];
        links[wrong] = &bad;
        assert_eq!(
            MyEvent::try_from(child_dto(5, links)).unwrap_err(),
            Error::InvalidDigestLength { expected_length: 64, actual_length: lengths[wrong] }
        );
    }
    // the first digest of wrong length is reported
    let (short, long) = ([0u8; 10], [0u8; 70]);
    assert_eq!(
        MyEvent::try_from(child_dto(5, [&good, &long, &short, &good])).unwrap_err(),
        Error::InvalidDigestLength { expected_length: 64, actual_length: 70 }
    );
}

#[test]
fn dto_with_sequence_number_below_two() {
    let good = [0u8; 64];
    for number in [0u64, 1] {
        assert_eq!(
            MyEvent::try_from(child_dto(number, [&good, &good, &good, &good])).unwrap_err(),
            Error::InvalidSequenceNumber
        );
    }
    // the sequence number is looked at before the digests
    let short = [0u8; 1];
    assert_eq!(
        MyEvent::try_from(child_dto(1, [&short, &good, &good, &good])).unwrap_err(),
        Error::InvalidSequenceNumber
    );
    assert!(MyEvent::try_from(child_dto(2, [&good, &good, &good, &good])).is_ok());
}

#[test]
fn modes_stand_for_order_path_and_values() {
    let expected = [
        (Mode::NoValues, Order::Descending, PathLength::ShortestPath, false),
        (Mode::Ascending, Order::Ascending, PathLength::ShortestPath, true),
        (Mode::Descending, Order::Descending, PathLength::ShortestPath, true),
        (Mode::AllAscending, Order::Ascending, PathLength::LongestPath, true),
        (Mode::AllDescending, Order::Descending, PathLength::LongestPath, true),
    ];
    for (mode, ordering, path_length, include_values) in expected {
        assert_eq!(mode.ordering(), ordering);
        assert_eq!(mode.path_length(), path_length);
        assert_eq!(mode.include_values(), include_values);
    }
}

#[test]
fn compact_request_form_becomes_a_request() {
    let new = Blake2b::digest(b"new");
    let old = Blake2b::digest(b"old");
    let dto = RequestDTO {
        new: new.as_slice(),
        old: old.as_slice(),
        mode: Mode::AllAscending,
        offset_event: 0,
        offset_value: None,
    };
    let request = MyRequest::try_from(dto).unwrap();
    assert_eq!(request.new, new);
    assert_eq!(request.old, Some(old));
    assert_eq!(request.ordering, Order::Ascending);
    assert_eq!(request.path_length, PathLength::LongestPath);
    assert!(request.include_values);
}

fn compact_form<'a>(
    new: &'a [u8],
    old: &'a [u8],
    offset_event: u8,
    offset_value: Option<u8>,
) -> RequestDTO<'a> {
    RequestDTO { new, old, mode: Mode::Descending, offset_event, offset_value }
}

#[test]
fn compact_request_form_is_refused_with_its_reason() {
    let good = [0u8; 64];
    let short = [0u8; 63];
    assert_eq!(
        MyRequest::try_from(compact_form(&short, &short, 1, None)).unwrap_err(),
        RequestDtoError::NewWasIncorrectLength
    );
    assert_eq!(
        MyRequest::try_from(compact_form(&good, &short, 1, None)).unwrap_err(),
        RequestDtoError::OldWasIncorrectLength
    );
    assert_eq!(
        MyRequest::try_from(compact_form(&good, &good, 1, None)).unwrap_err(),
        RequestDtoError::ResumingIsNotSupported
    );
    assert_eq!(
        MyRequest::try_from(compact_form(&good, &good, 0, Some(0))).unwrap_err(),
        RequestDtoError::ResumingIsNotSupported
    );
    assert!(MyRequest::try_from(compact_form(&good, &good, 0, None)).is_ok());
}
