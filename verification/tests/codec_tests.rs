use p2pchat::network::chat::{DirectMessageResponse, Message, MessageResponse};
use p2pchat::network::friends::{FriendRequest, FriendResponse};
use p2pchat::network::signable::Signable;

#[test]
fn message_encode_decode_round_trip() {
    let m = Message { content: "hello world".to_string(), id: 42 };
    let bytes = m.encode();
    let back = Message::decode(bytes.as_slice()).expect("canonical bytes must decode");
    assert_eq!(back.id, 42);
    assert_eq!(back.content, "hello world");
    assert_eq!(back.encode(), bytes);
}

#[test]
fn message_encode_is_id_then_utf8() {
    let m = Message { content: "hi".to_string(), id: 1 };
    let bytes = m.encode();
    let mut expected = 1u128.to_le_bytes().to_vec();
    expected.extend_from_slice("hi".as_bytes());
    assert_eq!(bytes, expected);
}

#[test]
fn message_decode_rejects_short_and_bad_utf8() {
    assert!(Message::decode(&[0u8; 15]).is_none());
    let mut bytes = 7u128.to_le_bytes().to_vec();
    bytes.extend_from_slice(&[0xff, 0xfe]);
    assert!(Message::decode(bytes.as_slice()).is_none());
}

#[test]
fn message_with_non_ascii_content_round_trips() {
    let m = Message { content: "grüße 你好".to_string(), id: u128::MAX };
    let back = Message::decode(m.encode().as_slice()).expect("valid encoding");
    assert_eq!(back.content, "grüße 你好");
    assert_eq!(back.id, u128::MAX);
}

#[test]
fn message_response_encode_decode_round_trip() {
    for r in [
        MessageResponse::ACK { message_id: 9 },
        MessageResponse::InvalidSignature { message_id: 1 << 100 },
    ] {
        let bytes = r.encode();
        let back = MessageResponse::decode(bytes.as_slice()).expect("valid encoding");
        assert_eq!(back, r);
    }
}

#[test]
fn message_response_decode_rejects_bad_tag_and_length() {
    let mut bytes = MessageResponse::ACK { message_id: 9 }.encode();
    assert_eq!(bytes.len(), 17);
    bytes[0] = 2;
    assert!(MessageResponse::decode(bytes.as_slice()).is_none());
    bytes[0] = 0;
    bytes.push(0);
    assert!(MessageResponse::decode(bytes.as_slice()).is_none());
    assert!(MessageResponse::decode(&bytes[..16]).is_none());
}

#[test]
fn direct_message_response_round_trip() {
    let r = DirectMessageResponse(MessageResponse::ACK { message_id: 3 });
    let back = DirectMessageResponse::decode(r.encode().as_slice()).expect("valid encoding");
    assert_eq!(back.0, MessageResponse::ACK { message_id: 3 });
}

#[test]
fn friend_request_encode_decode_round_trip() {
    let cases = [
        FriendRequest::RequestName,
        FriendRequest::VerifyName { name: "Mark".to_string() },
        FriendRequest::AddFriend,
        FriendRequest::AcceptFriend { decision: true },
        FriendRequest::AcceptFriend { decision: false },
    ];
    for r in cases {
        let bytes = r.encode();
        let back = FriendRequest::decode(bytes.as_slice()).expect("valid encoding");
        assert_eq!(back.encode(), bytes);
        match (&r, &back) {
            (FriendRequest::RequestName, FriendRequest::RequestName) => {}
            (
                FriendRequest::VerifyName { name: a },
                FriendRequest::VerifyName { name: b },
            ) => assert_eq!(a, b),
            (FriendRequest::AddFriend, FriendRequest::AddFriend) => {}
            (
                FriendRequest::AcceptFriend { decision: a },
                FriendRequest::AcceptFriend { decision: b },
            ) => assert_eq!(a, b),
            _ => panic!("variant changed in round trip"),
        }
    }
}

#[test]
fn friend_request_decode_rejects_malformed() {
    assert!(FriendRequest::decode(&[]).is_none());
    assert!(FriendRequest::decode(&[9]).is_none());
    // a tag-only variant with trailing bytes
    assert!(FriendRequest::decode(&[0, 0]).is_none());
    // accept-friend with an out-of-range decision byte
    assert!(FriendRequest::decode(&[3, 2]).is_none());
    assert!(FriendRequest::decode(&[3]).is_none());
}

#[test]
fn friend_response_encode_decode_round_trip() {
    let cases = [
        FriendResponse::RequestName { name: "Mark".to_string() },
        FriendResponse::VerifyName(None),
        FriendResponse::VerifyName(Some("Maria".to_string())),
        FriendResponse::AddFriendAck,
        FriendResponse::AcceptFriendAck,
    ];
    for r in cases {
        let bytes = r.encode();
        let back = FriendResponse::decode(bytes.as_slice()).expect("valid encoding");
        assert_eq!(back.encode(), bytes);
    }
}

#[test]
fn friend_response_decode_rejects_malformed() {
    assert!(FriendResponse::decode(&[]).is_none());
    assert!(FriendResponse::decode(&[7]).is_none());
    // verify-name with a presence byte out of range
    assert!(FriendResponse::decode(&[1, 2]).is_none());
    // verify-name "matched" with trailing bytes
    assert!(FriendResponse::decode(&[1, 0, 0]).is_none());
    // tag-only acks with trailing bytes
    assert!(FriendResponse::decode(&[2, 0]).is_none());
    assert!(FriendResponse::decode(&[3, 0]).is_none());
}

#[test]
fn distinct_messages_encode_differently() {
    let a = Message { content: "a".to_string(), id: 1 };
    let b = Message { content: "b".to_string(), id: 1 };
    let c = Message { content: "a".to_string(), id: 2 };
    assert_ne!(a.encode(), b.encode());
    assert_ne!(a.encode(), c.encode());
}
