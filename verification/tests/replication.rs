use magma_core::event::decode::error::Error as DecodeError;
use magma_core::event::SequenceNumber;
use magma_core::replication::request::dto::{Error as RequestDtoError, Request as RequestDto};
use magma_core::replication::request::{Order, PathLength, Request};
use magma_core::replication::response::dto::{
    Error as ResponseDtoError, EventPayloadPair as EncodedPair, Response as ResponseDto,
};
use magma_core::replication::response::{
    EventPayloadPair, Response, ResponseValidationError, UnvalidatedResponse, ValidResponse,
};
use magma_core::semigroup::{CanonicalEncodingU32Error, U32Semigroup};
use magma_core::{Blake2b, CanonicalEncoding, Digest, Event, Output};
use std::convert::TryFrom;

type MyEvent = Event<Blake2b>;
type MyRequest = Request<Blake2b>;
type MyResponse = Response<Blake2b, U32Semigroup>;
type MyUnvalidatedResponse = UnvalidatedResponse<Blake2b, U32Semigroup>;
type MyValidResponse = ValidResponse<Blake2b, U32Semigroup>;
type MyPair = EventPayloadPair<Blake2b, U32Semigroup>;

fn digest_of(data: &[u8]) -> Output<Blake2b> {
    Blake2b::digest(data)
}

fn encoded(event: &MyEvent) -> Vec<u8> {
    let mut buffer = vec![0u8; event.encoding_length()];
    event.encode(&mut buffer).unwrap();
    buffer
}

fn hash_of(event: &MyEvent) -> Output<Blake2b> {
    digest_of(&encoded(event))
}

fn value_bytes(value: u32) -> [u8; 4] {
    value.to_be_bytes()
}

fn root_for(value: u32) -> MyEvent {
    Event::Root { delta_digest: digest_of(&value_bytes(value)), delta_size: 4 }
}

fn child_for(number: u64, value: u32, predecessor: &MyEvent) -> MyEvent {
    let link = hash_of(predecessor);
    let digest = digest_of(&value_bytes(value));
    Event::Child {
        sequence_number: SequenceNumber::new(number).unwrap(),
        predecessor_event_link: link.clone(),
        delta_digest: digest.clone(),
        delta_size: 4,
        skip_event_link: link,
        skip_delta_digest: digest,
        skip_delta_size: 4,
    }
}

fn child_with_skip_for(number: u64, value: u32, predecessor: &MyEvent, skip: &MyEvent) -> MyEvent {
    Event::Child {
        sequence_number: SequenceNumber::new(number).unwrap(),
        predecessor_event_link: hash_of(predecessor),
        delta_digest: digest_of(&value_bytes(value)),
        delta_size: 4,
        skip_event_link: hash_of(skip),
        skip_delta_digest: digest_of(b"what lies between"),
        skip_delta_size: 17,
    }
}

/// A log of `values.len()` events: a root, then children that each link to the one before.
fn log_of(values: &[u32]) -> Vec<MyEvent> {
    let mut log: Vec<MyEvent> = vec![root_for(values[0])];
    for (i, value) in values.iter().enumerate().skip(1) {
        let next = child_for(i as u64 + 1, *value, &log[i - 1]);
        log.push(next);
    }
    log
}

fn pair(event: &MyEvent, value: Option<u32>) -> MyPair {
    EventPayloadPair { event: event.clone(), payload: value.map(U32Semigroup) }
}

fn request(new: &MyEvent, old: Option<&MyEvent>, ordering: Order, path_length: PathLength) -> MyRequest {
    Request {
        new: hash_of(new),
        old: old.map(hash_of),
        ordering,
        path_length,
        include_values: true,
    }
}

fn validate(
    pairs: Vec<MyPair>,
    request: MyRequest,
) -> Result<MyValidResponse, ResponseValidationError> {
    UnvalidatedResponse::Data(pairs).try_into_valid_response(request)
}

#[test]
fn request_dto_with_new_of_wrong_length() {
    let dto = RequestDto {
        new: vec![0u8; 63],
        old: None,
        ordering: Order::Ascending,
        path_length: PathLength::ShortestPath,
        include_values: true,
    };
    let request: Result<MyRequest, _> = Request::try_from(dto);
    assert_eq!(request.unwrap_err(), RequestDtoError::NewWasIncorrectLength);
}

#[test]
fn request_dto_with_old_of_wrong_length() {
    let dto = RequestDto {
        new: vec![0u8; 64],
        old: Some(vec![0u8; 65]),
        ordering: Order::Ascending,
        path_length: PathLength::ShortestPath,
        include_values: true,
    };
    assert_eq!(MyRequest::try_from(dto).unwrap_err(), RequestDtoError::OldWasIncorrectLength);
    let dto = RequestDto {
        new: vec![],
        old: Some(vec![]),
        ordering: Order::Descending,
        path_length: PathLength::LongestPath,
        include_values: false,
    };
    assert_eq!(MyRequest::try_from(dto).unwrap_err(), RequestDtoError::NewWasIncorrectLength);
}

#[test]
fn request_dto_round_trip() {
    for old in [None, Some(digest_of(b"old"))] {
        for (ordering, path_length, include_values) in [
            (Order::Ascending, PathLength::ShortestPath, true),
            (Order::Descending, PathLength::LongestPath, false),
        ] {
            let request: MyRequest = Request {
                new: digest_of(b"123"),
                old: old.clone(),
                ordering,
                path_length,
                include_values,
            };
            let dto = RequestDto::from_request(&request);
            assert_eq!(dto.new, digest_of(b"123").as_slice());
            assert_eq!(dto.old.as_deref(), old.as_ref().map(|o| o.as_slice()));
            assert_eq!(dto.ordering, ordering);
            assert_eq!(dto.path_length, path_length);
            assert_eq!(dto.include_values, include_values);
            let back = MyRequest::try_from(dto).unwrap();
            assert_eq!(back.new, request.new);
            assert_eq!(back.old, request.old);
            assert_eq!(back.ordering, request.ordering);
            assert_eq!(back.path_length, request.path_length);
            assert_eq!(back.include_values, request.include_values);
            let moved = RequestDto::from(request);
            assert_eq!(moved.new, digest_of(b"123").as_slice());
            assert_eq!(moved.old.as_deref(), old.as_ref().map(|o| o.as_slice()));
            assert_eq!(moved.ordering, ordering);
        }
    }
}

#[test]
fn request_dto_of_any_length_gives_a_request_or_an_error() {
    for new_length in [0usize, 1, 32, 63, 64, 65, 128] {
        for old_length in [None, Some(0usize), Some(63), Some(64), Some(65)] {
            let dto = RequestDto {
                new: vec![1u8; new_length],
                old: old_length.map(|n| vec![2u8; n]),
                ordering: Order::Ascending,
                path_length: PathLength::ShortestPath,
                include_values: true,
            };
            let request = MyRequest::try_from(dto);
            if new_length != 64 {
                assert_eq!(request.unwrap_err(), RequestDtoError::NewWasIncorrectLength);
            } else if old_length.is_some() && old_length != Some(64) {
                assert_eq!(request.unwrap_err(), RequestDtoError::OldWasIncorrectLength);
            } else {
                assert!(request.is_ok());
            }
        }
    }
}

#[test]
fn unknown_event_travels_as_it_is() {
    let response: MyResponse = Response::UnknownEvent;
    let dto = ResponseDto::from(response);
    assert!(matches!(dto, ResponseDto::UnknownEvent));
    let unvalidated = MyUnvalidatedResponse::try_from(dto).unwrap();
    assert!(matches!(unvalidated, UnvalidatedResponse::UnknownEvent));
}

#[test]
fn response_travels_as_encoded_pairs() {
    let log = log_of(&[10, 20, 30]);
    let response: MyResponse = Response::Data(vec![
        pair(&log[2], Some(30)),
        pair(&log[1], None),
        pair(&log[0], Some(10)),
    ]);
    let dto = ResponseDto::from(response);
    let pairs = match &dto {
        ResponseDto::Data(pairs) => pairs,
        ResponseDto::UnknownEvent => panic!("the response held data"),
    };
    assert_eq!(pairs.len(), 3);
    assert_eq!(pairs[0].event, encoded(&log[2]));
    assert_eq!(pairs[0].payload, Some(vec![0, 0, 0, 30]));
    assert_eq!(pairs[1].event, encoded(&log[1]));
    assert_eq!(pairs[1].payload, None);
    assert_eq!(pairs[2].event, encoded(&log[0]));
    assert_eq!(pairs[2].payload, Some(vec![0, 0, 0, 10]));
    let unvalidated = MyUnvalidatedResponse::try_from(dto).unwrap();
    match unvalidated {
        UnvalidatedResponse::Data(pairs) => {
            assert_eq!(pairs.len(), 3);
            assert_eq!(pairs[0].event, log[2]);
            assert_eq!(pairs[0].payload, Some(U32Semigroup(30)));
            assert_eq!(pairs[1].event, log[1]);
            assert_eq!(pairs[1].payload, None);
            assert_eq!(pairs[2].event, log[0]);
            assert_eq!(pairs[2].payload, Some(U32Semigroup(10)));
        }
        UnvalidatedResponse::UnknownEvent => panic!("the response held data"),
    }
}

#[test]
fn response_dto_with_bytes_that_are_no_event() {
    let log = log_of(&[10]);
    let dto = ResponseDto::Data(vec![
        EncodedPair { event: encoded(&log[0]), payload: None },
        EncodedPair { event: vec![], payload: Some(vec![1]) },
        EncodedPair { event: vec![0], payload: None },
    ]);
    match MyUnvalidatedResponse::try_from(dto).unwrap_err() {
        ResponseDtoError::DecodeEvent { source } => {
            assert_eq!(source, DecodeError::DecodeInputIsLengthZero)
        }
        ResponseDtoError::DecodePayload { .. } => panic!("the event comes first"),
    }
}

#[test]
fn response_dto_with_bytes_that_are_no_payload() {
    let log = log_of(&[10]);
    let dto = ResponseDto::Data(vec![
        EncodedPair { event: encoded(&log[0]), payload: Some(vec![0, 0, 0, 10, 99]) },
        EncodedPair { event: encoded(&log[0]), payload: Some(vec![0, 0, 1]) },
        EncodedPair { event: vec![], payload: None },
    ]);
    match MyUnvalidatedResponse::try_from(dto).unwrap_err() {
        ResponseDtoError::DecodePayload { source } => {
            assert_eq!(source, CanonicalEncodingU32Error::BufferTooSmall)
        }
        ResponseDtoError::DecodeEvent { .. } => panic!("the second pair fails first"),
    }
}

#[test]
fn response_dto_payload_may_be_followed_by_more() {
    let log = log_of(&[10]);
    let dto = ResponseDto::Data(vec![EncodedPair {
        event: encoded(&log[0]),
        payload: Some(vec![0, 0, 1, 2, 99, 98]),
    }]);
    match MyUnvalidatedResponse::try_from(dto).unwrap() {
        UnvalidatedResponse::Data(pairs) => {
            assert_eq!(pairs[0].payload, Some(U32Semigroup(258)));
        }
        UnvalidatedResponse::UnknownEvent => panic!("the response held data"),
    }
}

#[test]
fn response_dto_of_any_bytes_gives_a_response_or_an_error() {
    let samples: Vec<Vec<u8>> = vec![
        vec![],
        vec![0],
        vec![1],
        vec![255; 9],
        vec![0; 66],
        vec![3; 130],
        vec![248, 1, 2, 3],
    ];
    for event in &samples {
        for payload in [None, Some(vec![]), Some(vec![1, 2, 3, 4]), Some(vec![7; 9])] {
            let dto = ResponseDto::Data(vec![EncodedPair { event: event.clone(), payload }]);
            let res = MyUnvalidatedResponse::try_from(dto);
            assert!(res.is_ok() || res.is_err());
        }
    }
}

#[test]
fn unknown_event_is_no_valid_response() {
    let log = log_of(&[1]);
    let response: MyUnvalidatedResponse = UnvalidatedResponse::UnknownEvent;
    let result = response.try_into_valid_response(request(
        &log[0],
        None,
        Order::Descending,
        PathLength::ShortestPath,
    ));
    assert_eq!(result.unwrap_err(), ResponseValidationError::UnknownEvent);
}

#[test]
fn response_without_events_is_not_valid() {
    let log = log_of(&[1]);
    for ordering in [Order::Ascending, Order::Descending] {
        let result =
            validate(vec![], request(&log[0], None, ordering, PathLength::ShortestPath));
        assert_eq!(
            result.unwrap_err(),
            ResponseValidationError::ExpectedAtLeastOneEventInEvents
        );
    }
}

#[test]
fn first_event_hash_must_match_request_new() {
    let log = log_of(&[1, 2, 3]);
    let pairs = vec![pair(&log[1], Some(2)), pair(&log[0], Some(1))];
    let result =
        validate(pairs, request(&log[2], None, Order::Descending, PathLength::ShortestPath));
    assert_eq!(
        result.unwrap_err(),
        ResponseValidationError::FirstEventHashDidNotMatchHashOfRequestNew
    );
    // in ascending order the newest event is the last
    let pairs = vec![pair(&log[2], Some(3)), pair(&log[1], Some(2))];
    let result =
        validate(pairs, request(&log[2], None, Order::Ascending, PathLength::ShortestPath));
    assert_eq!(
        result.unwrap_err(),
        ResponseValidationError::FirstEventHashDidNotMatchHashOfRequestNew
    );
}

#[test]
fn payload_hash_must_match_delta_digest() {
    let log = log_of(&[1, 2]);
    let pairs = vec![pair(&log[1], Some(2)), pair(&log[0], Some(7))];
    let result =
        validate(pairs, request(&log[1], None, Order::Descending, PathLength::ShortestPath));
    assert_eq!(result.unwrap_err(), ResponseValidationError::PayloadHashMismatch);
}

#[test]
fn payload_length_must_match_delta_size() {
    let root: MyEvent = Event::Root { delta_digest: digest_of(&value_bytes(1)), delta_size: 5 };
    let pairs = vec![pair(&root, Some(1))];
    let result =
        validate(pairs, request(&root, None, Order::Descending, PathLength::ShortestPath));
    assert_eq!(result.unwrap_err(), ResponseValidationError::PayloadLengthMismatch);
    // the length is looked at before the hash
    let root: MyEvent = Event::Root { delta_digest: digest_of(b"other"), delta_size: 3 };
    let pairs = vec![pair(&root, Some(1))];
    let result =
        validate(pairs, request(&root, None, Order::Descending, PathLength::ShortestPath));
    assert_eq!(result.unwrap_err(), ResponseValidationError::PayloadLengthMismatch);
}

#[test]
fn events_must_come_in_the_order_of_the_request() {
    let log = log_of(&[1, 2, 3]);
    // descending was asked for, the events ascend behind the newest
    let pairs = vec![pair(&log[2], None), pair(&log[0], None), pair(&log[1], None)];
    let result =
        validate(pairs, request(&log[2], None, Order::Descending, PathLength::ShortestPath));
    assert_eq!(result.unwrap_err(), ResponseValidationError::OrderingViolation);
    // ascending was asked for, the newest is last but the others descend
    let pairs = vec![pair(&log[1], None), pair(&log[0], None), pair(&log[2], None)];
    let result =
        validate(pairs, request(&log[2], None, Order::Ascending, PathLength::ShortestPath));
    assert_eq!(result.unwrap_err(), ResponseValidationError::OrderingViolation);
    // the same event twice does not descend
    let pairs = vec![pair(&log[2], None), pair(&log[2], None)];
    let result =
        validate(pairs, request(&log[2], None, Order::Descending, PathLength::ShortestPath));
    assert_eq!(result.unwrap_err(), ResponseValidationError::OrderingViolation);
}

#[test]
fn each_event_must_link_to_the_next() {
    let log = log_of(&[1, 2, 3]);
    let other = log_of(&[9, 8]);
    // the second event is of another log
    let pairs = vec![pair(&log[2], None), pair(&other[1], None)];
    let result =
        validate(pairs, request(&log[2], None, Order::Descending, PathLength::ShortestPath));
    assert_eq!(result.unwrap_err(), ResponseValidationError::LinkMismatch);
    // a root links to nothing
    let strange = child_for(1, 5, &log[0]);
    let pairs = vec![pair(&log[0], None), pair(&strange, None)];
    let mut asked = request(&log[0], None, Order::Descending, PathLength::ShortestPath);
    asked.new = hash_of(&log[0]);
    // the root has sequence number 1, so nothing can follow it by depth
    assert_eq!(validate(pairs, asked).unwrap_err(), ResponseValidationError::OrderingViolation);
}

#[test]
fn skip_links_count_along_the_shortest_path_only() {
    let log = log_of(&[1, 2, 3]);
    let fourth = child_with_skip_for(4, 4, &log[2], &log[0]);
    let pairs = || vec![pair(&fourth, Some(4)), pair(&log[0], Some(1))];
    let valid =
        validate(pairs(), request(&fourth, None, Order::Descending, PathLength::ShortestPath))
            .unwrap();
    assert_eq!(valid.events().len(), 2);
    let result =
        validate(pairs(), request(&fourth, None, Order::Descending, PathLength::LongestPath));
    assert_eq!(result.unwrap_err(), ResponseValidationError::LinkMismatch);
    // along the predecessor links both path lengths pass
    for path_length in [PathLength::ShortestPath, PathLength::LongestPath] {
        let pairs = vec![
            pair(&fourth, None),
            pair(&log[2], None),
            pair(&log[1], None),
            pair(&log[0], None),
        ];
        assert!(validate(pairs, request(&fourth, None, Order::Descending, path_length)).is_ok());
    }
}

#[test]
fn sequence_numbers_must_follow_the_links() {
    let log = log_of(&[1, 2]);
    // a predecessor link over more than one position
    let far = child_for(4, 4, &log[1]);
    let pairs = vec![pair(&far, None), pair(&log[1], None)];
    let result =
        validate(pairs, request(&far, None, Order::Descending, PathLength::ShortestPath));
    assert_eq!(result.unwrap_err(), ResponseValidationError::SequenceNumberMismatch);
    // a skip link over one position only
    let near = child_with_skip_for(3, 3, &log[0], &log[1]);
    let pairs = vec![pair(&near, None), pair(&log[1], None)];
    let result =
        validate(pairs, request(&near, None, Order::Descending, PathLength::ShortestPath));
    assert_eq!(result.unwrap_err(), ResponseValidationError::SequenceNumberMismatch);
    // a child at the place of the root
    let first = child_for(1, 1, &log[0]);
    let pairs = vec![pair(&first, None)];
    let result =
        validate(pairs, request(&first, None, Order::Descending, PathLength::ShortestPath));
    assert_eq!(result.unwrap_err(), ResponseValidationError::SequenceNumberMismatch);
}

#[test]
fn oldest_event_must_reach_request_old() {
    let log = log_of(&[1, 2, 3, 4]);
    let newest_first = || vec![pair(&log[3], Some(4)), pair(&log[2], Some(3))];
    // the oldest event links to old
    assert!(validate(
        newest_first(),
        request(&log[3], Some(&log[1]), Order::Descending, PathLength::ShortestPath)
    )
    .is_ok());
    // the oldest event is old
    assert!(validate(
        newest_first(),
        request(&log[3], Some(&log[2]), Order::Descending, PathLength::ShortestPath)
    )
    .is_ok());
    // the oldest event stops short of old
    let result = validate(
        newest_first(),
        request(&log[3], Some(&log[0]), Order::Descending, PathLength::ShortestPath),
    );
    assert_eq!(result.unwrap_err(), ResponseValidationError::OldEventNotReached);
    // in ascending order the oldest event is the first
    let oldest_first = vec![pair(&log[2], Some(3)), pair(&log[3], Some(4))];
    let result = validate(
        oldest_first,
        request(&log[3], Some(&log[0]), Order::Ascending, PathLength::ShortestPath),
    );
    assert_eq!(result.unwrap_err(), ResponseValidationError::OldEventNotReached);
    // a skip link reaches old as well
    let fifth = child_with_skip_for(5, 5, &log[3], &log[1]);
    assert!(validate(
        vec![pair(&fifth, None)],
        request(&fifth, Some(&log[1]), Order::Descending, PathLength::LongestPath)
    )
    .is_ok());
}

#[test]
fn honest_answers_are_accepted_in_both_orders() {
    let values = [5u32, 6, 7, 8, 9];
    let log = log_of(&values);
    for oldest in 0..values.len() {
        for newest in oldest..values.len() {
            for ordering in [Order::Ascending, Order::Descending] {
                let mut pairs: Vec<MyPair> =
                    (oldest..=newest).map(|k| pair(&log[k], Some(values[k]))).collect();
                if ordering == Order::Descending {
                    pairs.reverse();
                }
                let old = if oldest > 0 { Some(&log[oldest - 1]) } else { None };
                let valid =
                    validate(pairs, request(&log[newest], old, ordering, PathLength::LongestPath))
                        .unwrap();
                let count = newest - oldest + 1;
                assert_eq!(valid.events().len(), count);
                assert_eq!(valid.values().len(), count);
                for i in 0..count {
                    let k = if ordering == Order::Ascending { oldest + i } else { newest - i };
                    assert_eq!(valid.events()[i], log[k]);
                    assert_eq!(valid.values()[i], Some(U32Semigroup(values[k])));
                }
                let sum: u32 = values[oldest..=newest].iter().sum();
                assert_eq!(valid.combine_values(), Some(U32Semigroup(sum)));
            }
        }
    }
}

#[test]
fn combine_values_skips_events_without_value() {
    let log = log_of(&[5, 6, 7]);
    let pairs = vec![pair(&log[2], Some(7)), pair(&log[1], None), pair(&log[0], Some(5))];
    let valid =
        validate(pairs, request(&log[2], None, Order::Descending, PathLength::ShortestPath))
            .unwrap();
    assert_eq!(valid.values()[1], None);
    assert_eq!(valid.combine_values(), Some(U32Semigroup(12)));
    let pairs = vec![pair(&log[2], None), pair(&log[1], None)];
    let valid =
        validate(pairs, request(&log[2], None, Order::Descending, PathLength::ShortestPath))
            .unwrap();
    assert_eq!(valid.combine_values(), None);
}

#[test]
fn changing_a_byte_of_an_event_makes_the_response_invalid() {
    let values = [5u32, 6, 7];
    let log = log_of(&values);
    let dto = ResponseDto::from(Response::Data(vec![
        pair(&log[2], Some(7)),
        pair(&log[1], Some(6)),
        pair(&log[0], Some(5)),
    ]) as MyResponse);
    let encoded_pairs = match dto {
        ResponseDto::Data(pairs) => pairs,
        ResponseDto::UnknownEvent => panic!("the response held data"),
    };
    for which in 0..encoded_pairs.len() {
        for at in 0..encoded_pairs[which].event.len() {
            let changed: Vec<EncodedPair> = encoded_pairs
                .iter()
                .enumerate()
                .map(|(i, p)| {
                    let mut event = p.event.clone();
                    if i == which {
                        event[at] ^= 1;
                    }
                    EncodedPair { event, payload: p.payload.clone() }
                })
                .collect();
            let accepted = MyUnvalidatedResponse::try_from(ResponseDto::Data(changed))
                .ok()
                .map(|unvalidated| {
                    unvalidated.try_into_valid_response(request(
                        &log[2],
                        None,
                        Order::Descending,
                        PathLength::ShortestPath,
                    ))
                });
            assert!(!matches!(accepted, Some(Ok(_))));
        }
    }
}
