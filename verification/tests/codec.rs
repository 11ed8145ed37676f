use ws_relay::code::Code;
use ws_relay::proto::c2s;
use ws_relay::proto::error::DecodeError;
use ws_relay::proto::forward::ForwardMessage;
use ws_relay::proto::s2c;
use ws_relay::session_id::SessionId;

fn id_from(bytes: [u8; 16]) -> SessionId {
    SessionId::from_slice(&bytes)
}

fn code_from(bytes: [u8; 4]) -> Code {
    Code::try_from(&bytes).unwrap()
}

#[test]
fn from_ref() {
    let buf: &[u8; 4] = &[1, 2, 3, 4];

    let code: Code = Code::try_from(&buf[0..4]).unwrap();

    assert_eq!(&[1, 2, 3, 4][..], code.as_slice());
}

#[test]
fn code_rejects_wrong_length() {
    assert_eq!(
        Code::try_from(&[1u8, 2, 3][..]),
        Err(DecodeError::BufferTooSmall { min: 4, remaining: 3 })
    );
    assert_eq!(
        Code::try_from(&[1u8, 2, 3, 4, 5][..]),
        Err(DecodeError::BufferTooSmall { min: 4, remaining: 5 })
    );
}

#[test]
fn code_display_is_prefixed_lowercase_hex() {
    let code = code_from([0xAB, 0xCD, 0x01, 0x2F]);
    assert_eq!("#abcd012f", code.to_display_string());
}

#[test]
fn fresh_identifiers_have_fixed_widths() {
    assert_eq!(16, SessionId::fresh().as_slice().len());
    assert_eq!(4, Code::new().as_slice().len());
}

#[test]
fn c2s_send_to_player_encodes_exactly() {
    let msg = c2s::Message::SendToPlayer(ForwardMessage {
        session_id: id_from([0, 1, 2, 3, 4, 5, 6, 7, 8, 9, 10, 11, 12, 13, 14, 15]),
        raw: vec![0xAA, 0xBB],
    });
    let mut buf: Vec<u8> = Vec::new();
    msg.encode(&mut buf).unwrap();
    assert_eq!(
        vec![1u8, 0, 1, 2, 3, 4, 5, 6, 7, 8, 9, 10, 11, 12, 13, 14, 15, 0xAA, 0xBB],
        buf
    );
}

#[test]
fn c2s_round_trip_send_to_player() {
    let id = [9u8, 8, 7, 6, 5, 4, 3, 2, 1, 0, 11, 22, 33, 44, 55, 66];
    let msg = c2s::Message::SendToPlayer(ForwardMessage {
        session_id: id_from(id),
        raw: vec![1, 2, 3],
    });
    let mut buf: Vec<u8> = Vec::new();
    msg.encode(&mut buf).unwrap();
    match c2s::Message::decode(&buf).unwrap() {
        c2s::Message::SendToPlayer(f) => {
            assert_eq!(&id[..], f.session_id.as_slice());
            assert_eq!(vec![1u8, 2, 3], f.raw);
        }
        _ => panic!("wrong variant"),
    }
}

#[test]
fn c2s_round_trip_create_room() {
    let mut buf: Vec<u8> = Vec::new();
    c2s::Message::CreateRoom.encode(&mut buf).unwrap();
    assert_eq!(vec![2u8], buf);
    assert!(matches!(
        c2s::Message::decode(&buf).unwrap(),
        c2s::Message::CreateRoom
    ));
}

#[test]
fn c2s_round_trip_join_room() {
    let msg = c2s::Message::JoinRoom { code: code_from([7, 8, 9, 10]) };
    let mut buf: Vec<u8> = Vec::new();
    msg.encode(&mut buf).unwrap();
    assert_eq!(vec![3u8, 7, 8, 9, 10], buf);
    match c2s::Message::decode(&buf).unwrap() {
        c2s::Message::JoinRoom { code } => assert_eq!(&[7u8, 8, 9, 10][..], code.as_slice()),
        _ => panic!("wrong variant"),
    }
}

#[test]
fn c2s_join_room_ignores_trailing_bytes() {
    match c2s::Message::decode(&[3u8, 7, 8, 9, 10, 99, 98]).unwrap() {
        c2s::Message::JoinRoom { code } => assert_eq!(&[7u8, 8, 9, 10][..], code.as_slice()),
        _ => panic!("wrong variant"),
    }
}

#[test]
fn c2s_truncated_buffers_fail_exactly() {
    assert!(matches!(
        c2s::Message::decode(&[]),
        Err(DecodeError::BufferTooSmall { min: 1, remaining: 0 })
    ));
    let mut short = vec![1u8];
    short.extend_from_slice(&[0u8; 10]);
    assert!(matches!(
        c2s::Message::decode(&short),
        Err(DecodeError::BufferTooSmall { min: 17, remaining: 10 })
    ));
    assert!(matches!(
        c2s::Message::decode(&[1u8]),
        Err(DecodeError::BufferTooSmall { min: 17, remaining: 0 })
    ));
    assert!(matches!(
        c2s::Message::decode(&[3u8, 1, 2]),
        Err(DecodeError::BufferTooSmall { min: 5, remaining: 3 })
    ));
}

#[test]
fn c2s_empty_payload_does_not_round_trip() {
    let msg = c2s::Message::SendToPlayer(ForwardMessage {
        session_id: id_from([0; 16]),
        raw: vec![],
    });
    let mut buf: Vec<u8> = Vec::new();
    msg.encode(&mut buf).unwrap();
    assert_eq!(17, buf.len());
    assert!(matches!(
        c2s::Message::decode(&buf),
        Err(DecodeError::BufferTooSmall { min: 17, remaining: 16 })
    ));
}

#[test]
fn c2s_bad_tag_fails_with_that_tag() {
    assert!(matches!(
        c2s::Message::decode(&[0u8, 1, 2]),
        Err(DecodeError::BadMessageCode { code: 0 })
    ));
    assert!(matches!(
        c2s::Message::decode(&[4u8]),
        Err(DecodeError::BadMessageCode { code: 4 })
    ));
    assert!(matches!(
        c2s::Message::decode(&[255u8, 0]),
        Err(DecodeError::BadMessageCode { code: 255 })
    ));
}

#[test]
fn s2c_round_trip_receive_from_player() {
    let id = [1u8; 16];
    let msg = s2c::Message::ReceiveFromPlayer(ForwardMessage {
        session_id: id_from(id),
        raw: vec![42],
    });
    let mut buf: Vec<u8> = Vec::new();
    msg.encode(&mut buf).unwrap();
    match s2c::Message::decode(&buf).unwrap() {
        s2c::Message::ReceiveFromPlayer(f) => {
            assert_eq!(&id[..], f.session_id.as_slice());
            assert_eq!(vec![42u8], f.raw);
        }
        _ => panic!("wrong variant"),
    }
}

#[test]
fn s2c_round_trip_assign_session_id() {
    let id = [5u8, 4, 3, 2, 1, 0, 9, 8, 7, 6, 15, 14, 13, 12, 11, 10];
    let msg = s2c::Message::AssignSessionId { session_id: id_from(id) };
    let mut buf: Vec<u8> = Vec::new();
    msg.encode(&mut buf).unwrap();
    assert_eq!(17, buf.len());
    assert_eq!(2u8, buf[0]);
    match s2c::Message::decode(&buf).unwrap() {
        s2c::Message::AssignSessionId { session_id } => {
            assert_eq!(&id[..], session_id.as_slice())
        }
        _ => panic!("wrong variant"),
    }
}

#[test]
fn s2c_round_trip_room_created() {
    let msg = s2c::Message::RoomCreated { code: code_from([0xDE, 0xAD, 0xBE, 0xEF]) };
    let mut buf: Vec<u8> = Vec::new();
    msg.encode(&mut buf).unwrap();
    assert_eq!(vec![3u8, 0xDE, 0xAD, 0xBE, 0xEF], buf);
    match s2c::Message::decode(&buf).unwrap() {
        s2c::Message::RoomCreated { code } => {
            assert_eq!(&[0xDEu8, 0xAD, 0xBE, 0xEF][..], code.as_slice())
        }
        _ => panic!("wrong variant"),
    }
}

#[test]
fn s2c_round_trip_room_joined() {
    let id = [7u8; 16];
    let msg = s2c::Message::RoomJoined { host_session_id: id_from(id) };
    let mut buf: Vec<u8> = Vec::new();
    msg.encode(&mut buf).unwrap();
    assert_eq!(4u8, buf[0]);
    match s2c::Message::decode(&buf).unwrap() {
        s2c::Message::RoomJoined { host_session_id } => {
            assert_eq!(&id[..], host_session_id.as_slice())
        }
        _ => panic!("wrong variant"),
    }
}

#[test]
fn s2c_round_trip_player_joined() {
    let id = [3u8; 16];
    let msg = s2c::Message::PlayerJoined { player_session_id: id_from(id) };
    let mut buf: Vec<u8> = Vec::new();
    msg.encode(&mut buf).unwrap();
    assert_eq!(5u8, buf[0]);
    match s2c::Message::decode(&buf).unwrap() {
        s2c::Message::PlayerJoined { player_session_id } => {
            assert_eq!(&id[..], player_session_id.as_slice())
        }
        _ => panic!("wrong variant"),
    }
}

#[test]
fn s2c_identifier_variants_ignore_trailing_bytes() {
    let mut buf = vec![2u8];
    buf.extend_from_slice(&[9u8; 16]);
    buf.extend_from_slice(&[1, 2, 3]);
    match s2c::Message::decode(&buf).unwrap() {
        s2c::Message::AssignSessionId { session_id } => {
            assert_eq!(&[9u8; 16][..], session_id.as_slice())
        }
        _ => panic!("wrong variant"),
    }
}

#[test]
fn s2c_truncated_buffers_fail_exactly() {
    assert!(matches!(
        s2c::Message::decode(&[]),
        Err(DecodeError::BufferTooSmall { min: 1, remaining: 0 })
    ));
    assert!(matches!(
        s2c::Message::decode(&[1u8, 0, 0]),
        Err(DecodeError::BufferTooSmall { min: 17, remaining: 2 })
    ));
    let mut short = vec![2u8];
    short.extend_from_slice(&[0u8; 10]);
    assert!(matches!(
        s2c::Message::decode(&short),
        Err(DecodeError::BufferTooSmall { min: 16, remaining: 10 })
    ));
    assert!(matches!(
        s2c::Message::decode(&[3u8, 1]),
        Err(DecodeError::BufferTooSmall { min: 4, remaining: 1 })
    ));
    assert!(matches!(
        s2c::Message::decode(&[4u8]),
        Err(DecodeError::BufferTooSmall { min: 16, remaining: 0 })
    ));
    assert!(matches!(
        s2c::Message::decode(&[5u8, 1, 2, 3]),
        Err(DecodeError::BufferTooSmall { min: 16, remaining: 3 })
    ));
}

#[test]
fn s2c_bad_tag_fails_with_that_tag() {
    assert!(matches!(
        s2c::Message::decode(&[0u8]),
        Err(DecodeError::BadMessageCode { code: 0 })
    ));
    assert!(matches!(
        s2c::Message::decode(&[6u8, 1, 2]),
        Err(DecodeError::BadMessageCode { code: 6 })
    ));
}

#[test]
fn forward_set_session_id_overwrites() {
    let mut fwd = ForwardMessage { session_id: id_from([0; 16]), raw: vec![1] };
    fwd.set_session_id(&id_from([8; 16]));
    assert_eq!(&[8u8; 16][..], fwd.session_id.as_slice());
    assert_eq!(vec![1u8], fwd.raw);
}
