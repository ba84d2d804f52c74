use rocketmq::codec::{decode_reply, encode_reply, encode_request, reply_frame_len, DecodeError, Reply, ReplyOutcome};
use rocketmq::message::Message;

#[test]
fn accepted_reply_round_trips() {
    let reply = Reply {
        correlation_id: 0x0102030405060708,
        outcome: ReplyOutcome::Accepted { message_id: "abc".to_owned() },
    };
    let bytes = encode_reply(&reply);
    assert_eq!(bytes, vec![0, 1, 2, 3, 4, 5, 6, 7, 8, 0, 0, 0, 3, b'a', b'b', b'c']);
    assert_eq!(decode_reply(&bytes), Ok(reply));
}

#[test]
fn rejected_reply_round_trips_with_utf8() {
    let reply = Reply {
        correlation_id: u64::MAX,
        outcome: ReplyOutcome::Rejected { reason: "plein: é".to_owned() },
    };
    let bytes = encode_reply(&reply);
    assert_eq!(bytes[0], 1);
    assert_eq!(&bytes[9..13], &[0, 0, 0, 9]);
    assert_eq!(decode_reply(&bytes), Ok(reply));
}

#[test]
fn decode_errors() {
    assert_eq!(decode_reply(&[]), Err(DecodeError::Truncated));
    assert_eq!(decode_reply(&[0; 12]), Err(DecodeError::Truncated));
    let mut unknown = vec![7u8; 13];
    unknown[0] = 7;
    assert_eq!(decode_reply(&unknown), Err(DecodeError::UnknownKind { kind: 7 }));
    let short = vec![0, 0, 0, 0, 0, 0, 0, 0, 1, 0, 0, 0, 2, b'a'];
    assert_eq!(decode_reply(&short), Err(DecodeError::Truncated));
    let long = vec![0, 0, 0, 0, 0, 0, 0, 0, 1, 0, 0, 0, 1, b'a', b'b'];
    assert_eq!(decode_reply(&long), Err(DecodeError::TrailingBytes));
    let empty = vec![0, 0, 0, 0, 0, 0, 0, 0, 1, 0, 0, 0, 0];
    assert_eq!(decode_reply(&empty), Err(DecodeError::EmptyPayload));
    let bad = vec![1, 0, 0, 0, 0, 0, 0, 0, 1, 0, 0, 0, 2, 0xff, 0xfe];
    assert_eq!(decode_reply(&bad), Err(DecodeError::InvalidUtf8));
}

#[test]
fn frame_length_from_header() {
    assert_eq!(reply_frame_len(&[0; 12]), None);
    assert_eq!(reply_frame_len(&[0, 0, 0, 0, 0, 0, 0, 0, 0, 0, 0, 1, 2]), Some(13 + 258));
}

#[test]
fn request_with_tag_and_properties() {
    let mut m = Message::new("tp", vec![9]);
    m.tag = "x".to_owned();
    m.properties.push(("k".to_owned(), "v".to_owned()));
    assert!(m.is_well_formed());
    let bytes = encode_request(2, &m);
    assert_eq!(
        bytes,
        vec![
            0, 0, 0, 0, 0, 0, 0, 2, 0, 0, 0, 2, b't', b'p', 0, 0, 0, 1, b'x', 0, 0, 0, 1, 0, 0,
            0, 1, b'k', 0, 0, 0, 1, b'v', 0, 0, 0, 1, 9,
        ]
    );
    assert_eq!(encode_request(2, &m), bytes);
}
