use tokio::sync::mpsc::error::TryRecvError;
use tokio::sync::mpsc::UnboundedReceiver;

use ws_relay::app::error::{ProcessError, SendError};
use ws_relay::app::{process_message, App, Player};
use ws_relay::code::Code;
use ws_relay::proto::c2s;
use ws_relay::proto::error::DecodeError;
use ws_relay::proto::forward::ForwardMessage;
use ws_relay::proto::s2c;
use ws_relay::session_id::SessionId;

fn register(app: &mut App) -> (SessionId, UnboundedReceiver<Vec<u8>>) {
    let (tx, mut rx) = tokio::sync::mpsc::unbounded_channel::<Vec<u8>>();
    let player = Player::new(tx);
    let id = app.add_player(player).unwrap();
    let frame = rx.try_recv().unwrap();
    match s2c::Message::decode(&frame).unwrap() {
        s2c::Message::AssignSessionId { session_id } => {
            assert_eq!(id.as_slice(), session_id.as_slice());
            assert_eq!(16, session_id.as_slice().len());
        }
        _ => panic!("expected the assigned identifier first"),
    }
    (id, rx)
}

fn create_room_frame() -> Vec<u8> {
    let mut buf: Vec<u8> = Vec::new();
    c2s::Message::CreateRoom.encode(&mut buf).unwrap();
    buf
}

fn join_room_frame(code: &Code) -> Vec<u8> {
    let mut buf: Vec<u8> = Vec::new();
    let msg = c2s::Message::JoinRoom { code: Code::try_from(code.as_slice()).unwrap() };
    msg.encode(&mut buf).unwrap();
    buf
}

fn send_to_player_frame(target: &SessionId, raw: &[u8]) -> Vec<u8> {
    let mut buf: Vec<u8> = Vec::new();
    let msg = c2s::Message::SendToPlayer(ForwardMessage {
        session_id: SessionId::from_slice(target.as_slice()),
        raw: raw.to_vec(),
    });
    msg.encode(&mut buf).unwrap();
    buf
}

fn expect_room_created(rx: &mut UnboundedReceiver<Vec<u8>>) -> Code {
    let frame = rx.try_recv().unwrap();
    match s2c::Message::decode(&frame).unwrap() {
        s2c::Message::RoomCreated { code } => code,
        _ => panic!("expected the created room's code"),
    }
}

#[test]
fn session_registers_creates_room_and_is_in_room() {
    let mut app = App::new();
    let (a, mut a_rx) = register(&mut app);

    process_message(&mut app, &a, &create_room_frame()).unwrap();

    let code = expect_room_created(&mut a_rx);
    assert_eq!(4, code.as_slice().len());
    assert!(app.get_player(&a).unwrap().is_in_room());
    assert!(app.get_room(&code).is_some());
    assert_eq!(1, app.get_rooms().len());
}

#[test]
fn join_notifies_joiner_and_host() {
    let mut app = App::new();
    let (a, mut a_rx) = register(&mut app);
    let (b, mut b_rx) = register(&mut app);

    process_message(&mut app, &a, &create_room_frame()).unwrap();
    let code = expect_room_created(&mut a_rx);

    process_message(&mut app, &b, &join_room_frame(&code)).unwrap();

    let frame = b_rx.try_recv().unwrap();
    match s2c::Message::decode(&frame).unwrap() {
        s2c::Message::RoomJoined { host_session_id } => {
            assert_eq!(a.as_slice(), host_session_id.as_slice())
        }
        _ => panic!("expected the join confirmation"),
    }
    let frame = a_rx.try_recv().unwrap();
    match s2c::Message::decode(&frame).unwrap() {
        s2c::Message::PlayerJoined { player_session_id } => {
            assert_eq!(b.as_slice(), player_session_id.as_slice())
        }
        _ => panic!("expected the host's notification"),
    }
    let room = app.get_room(&code).unwrap();
    assert!(room.get_player(&b).is_some());
    assert_eq!(a.as_slice(), room.get_host().as_slice());
}

#[test]
fn forwarded_payload_carries_the_actual_sender() {
    let mut app = App::new();
    let (a, mut a_rx) = register(&mut app);
    let (b, mut b_rx) = register(&mut app);

    process_message(&mut app, &a, &create_room_frame()).unwrap();
    let code = expect_room_created(&mut a_rx);
    process_message(&mut app, &b, &join_room_frame(&code)).unwrap();
    let _ = b_rx.try_recv().unwrap();
    let _ = a_rx.try_recv().unwrap();

    process_message(&mut app, &b, &send_to_player_frame(&a, b"hi")).unwrap();

    let frame = a_rx.try_recv().unwrap();
    match s2c::Message::decode(&frame).unwrap() {
        s2c::Message::ReceiveFromPlayer(f) => {
            assert_eq!(b.as_slice(), f.session_id.as_slice());
            assert_eq!(b"hi".to_vec(), f.raw);
        }
        _ => panic!("expected the forwarded payload"),
    }
}

#[test]
fn host_disconnect_removes_room_and_later_joins_fail() {
    let mut app = App::new();
    let (a, mut a_rx) = register(&mut app);
    let (b, _b_rx) = register(&mut app);

    process_message(&mut app, &a, &create_room_frame()).unwrap();
    let code = expect_room_created(&mut a_rx);

    app.remove_player(&a).unwrap();

    assert!(app.get_room(&code).is_none());
    assert_eq!(0, app.get_rooms().len());
    assert!(app.get_player(&a).is_none());
    assert_eq!(
        Err(ProcessError::RoomNotFound),
        process_message(&mut app, &b, &join_room_frame(&code))
    );
}

#[test]
fn member_disconnect_keeps_room() {
    let mut app = App::new();
    let (a, mut a_rx) = register(&mut app);
    let (b, mut b_rx) = register(&mut app);

    process_message(&mut app, &a, &create_room_frame()).unwrap();
    let code = expect_room_created(&mut a_rx);
    process_message(&mut app, &b, &join_room_frame(&code)).unwrap();
    let _ = b_rx.try_recv().unwrap();
    let _ = a_rx.try_recv().unwrap();

    app.remove_player(&b).unwrap();

    assert!(app.get_room(&code).is_some());
    assert!(app.get_player(&b).is_none());
}

#[test]
fn send_without_room_fails_not_in_room() {
    let mut app = App::new();
    let (a, _a_rx) = register(&mut app);
    let (b, _b_rx) = register(&mut app);

    assert_eq!(
        Err(ProcessError::NotInRoom),
        process_message(&mut app, &a, &send_to_player_frame(&b, b"hi"))
    );
}

#[test]
fn send_to_id_outside_room_fails_player_not_found() {
    let mut app = App::new();
    let (a, mut a_rx) = register(&mut app);
    let (b, mut b_rx) = register(&mut app);
    let (d, _d_rx) = register(&mut app);

    process_message(&mut app, &a, &create_room_frame()).unwrap();
    let code = expect_room_created(&mut a_rx);
    process_message(&mut app, &b, &join_room_frame(&code)).unwrap();
    let _ = b_rx.try_recv().unwrap();
    let _ = a_rx.try_recv().unwrap();

    assert_eq!(
        Err(ProcessError::PlayerNotFound),
        process_message(&mut app, &b, &send_to_player_frame(&d, b"hi"))
    );
    assert!(app.get_player(&d).is_some());
}

#[test]
fn create_room_while_in_room_fails_and_adds_nothing() {
    let mut app = App::new();
    let (a, mut a_rx) = register(&mut app);

    process_message(&mut app, &a, &create_room_frame()).unwrap();
    let _ = expect_room_created(&mut a_rx);
    assert_eq!(1, app.get_rooms().len());

    assert_eq!(
        Err(ProcessError::InvalidOperation),
        process_message(&mut app, &a, &create_room_frame())
    );
    assert_eq!(1, app.get_rooms().len());
}

#[test]
fn join_while_in_room_fails_invalid_operation() {
    let mut app = App::new();
    let (a, mut a_rx) = register(&mut app);
    let (b, mut b_rx) = register(&mut app);

    process_message(&mut app, &a, &create_room_frame()).unwrap();
    let code_a = expect_room_created(&mut a_rx);
    process_message(&mut app, &b, &create_room_frame()).unwrap();
    let _code_b = expect_room_created(&mut b_rx);

    assert_eq!(
        Err(ProcessError::InvalidOperation),
        process_message(&mut app, &b, &join_room_frame(&code_a))
    );
}

#[test]
fn undecodable_frame_is_reported_and_dropped() {
    let mut app = App::new();
    let (a, _a_rx) = register(&mut app);

    assert_eq!(
        Err(ProcessError::Decode(DecodeError::BadMessageCode { code: 9 })),
        process_message(&mut app, &a, &[9u8, 1, 2])
    );
    assert_eq!(
        Err(ProcessError::Decode(DecodeError::BufferTooSmall { min: 1, remaining: 0 })),
        process_message(&mut app, &a, &[])
    );
    assert!(app.get_player(&a).is_some());
}

#[test]
fn removing_unknown_session_is_a_benign_race() {
    let mut app = App::new();
    let (a, _a_rx) = register(&mut app);

    app.remove_player(&a).unwrap();
    assert_eq!(Err(ProcessError::PlayerNotFound), app.remove_player(&a));
}

#[test]
fn registration_fails_when_the_connection_is_gone() {
    let mut app = App::new();
    let (tx, rx) = tokio::sync::mpsc::unbounded_channel::<Vec<u8>>();
    drop(rx);
    let player = Player::new(tx);

    match app.add_player(player) {
        Err(SendError::Closed(frame)) => {
            assert!(matches!(
                s2c::Message::decode(&frame).unwrap(),
                s2c::Message::AssignSessionId { .. }
            ));
        }
        _ => panic!("registration must fail with the undelivered frame"),
    }
    assert_eq!(0, app.get_players().len());
}

#[test]
fn forwarding_to_a_closed_connection_fails_send() {
    let mut app = App::new();
    let (a, mut a_rx) = register(&mut app);
    let (b, mut b_rx) = register(&mut app);

    process_message(&mut app, &a, &create_room_frame()).unwrap();
    let code = expect_room_created(&mut a_rx);
    process_message(&mut app, &b, &join_room_frame(&code)).unwrap();
    let _ = b_rx.try_recv().unwrap();
    let _ = a_rx.try_recv().unwrap();
    drop(a_rx);

    match process_message(&mut app, &b, &send_to_player_frame(&a, b"hi")) {
        Err(ProcessError::SendFailed(SendError::Closed(frame))) => {
            match s2c::Message::decode(&frame).unwrap() {
                s2c::Message::ReceiveFromPlayer(f) => {
                    assert_eq!(b.as_slice(), f.session_id.as_slice());
                    assert_eq!(b"hi".to_vec(), f.raw);
                }
                _ => panic!("expected the forwarded payload in the error"),
            }
        }
        _ => panic!("forwarding must fail once the target is gone"),
    }
    assert!(app.get_player(&b).is_some());
}

#[test]
fn remove_room_leaves_members_with_dangling_references() {
    let mut app = App::new();
    let (a, mut a_rx) = register(&mut app);

    process_message(&mut app, &a, &create_room_frame()).unwrap();
    let code = expect_room_created(&mut a_rx);

    app.remove_room(&code);

    assert!(app.get_room(&code).is_none());
    let player = app.get_player(&a).unwrap();
    assert!(player.is_in_room());
    assert_eq!(code.as_slice(), player.get_room().unwrap().as_slice());
    assert_eq!(Err(TryRecvError::Empty), a_rx.try_recv());
}

#[test]
fn diagnostics_list_sessions_and_rooms() {
    let mut app = App::new();
    let (a, mut a_rx) = register(&mut app);
    let (b, _b_rx) = register(&mut app);

    let ids = app.get_players();
    assert_eq!(2, ids.len());
    assert_eq!(a.as_slice(), ids[0].as_slice());
    assert_eq!(b.as_slice(), ids[1].as_slice());

    process_message(&mut app, &a, &create_room_frame()).unwrap();
    let code = expect_room_created(&mut a_rx);
    let codes = app.get_rooms();
    assert_eq!(1, codes.len());
    assert_eq!(code.as_slice(), codes[0].as_slice());
}

#[test]
fn player_send_queues_one_encoded_frame() {
    let (tx, mut rx) = tokio::sync::mpsc::unbounded_channel::<Vec<u8>>();
    let mut player = Player::new(tx);
    let code = Code::try_from(&[1u8, 2, 3, 4][..]).unwrap();

    player.send(&s2c::Message::RoomCreated { code }).unwrap();

    assert_eq!(vec![3u8, 1, 2, 3, 4], rx.try_recv().unwrap());
    assert_eq!(Err(TryRecvError::Empty), rx.try_recv());
}
