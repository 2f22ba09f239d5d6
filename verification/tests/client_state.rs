use mp5_usenet::client_state::{listed_groups, ClientState, ReplyError};
use mp5_usenet::frame::encode_frame;
use mp5_usenet::types::{Group, GroupResponse};

#[test]
fn replies_reach_their_callers() {
    let mut s: ClientState<&str> = ClientState::new();
    assert_eq!(s.counter(), 0);
    let a = s.register("first");
    let b = s.register("second");
    assert_eq!((a, b), (0, 1));
    assert_eq!(s.counter(), 2);
    assert_eq!(s.complete(1), Some("second"));
    assert_eq!(s.complete(1), None);
    assert_eq!(s.complete(7), None);
    assert_eq!(s.complete(0), Some("first"));
}

#[test]
fn start_call_frames_the_request() {
    let mut s: ClientState<u8> = ClientState::new();
    s.register(0);
    let (index, frame) = s.start_call(42, b"\"Context\"", 1);
    assert_eq!(index, 1);
    assert_eq!(frame, encode_frame(42, 1, b"\"Context\""));
    assert_eq!(s.complete(1), Some(1));
}

#[test]
fn list_reply_must_be_a_list() {
    let groups = vec![Group::new("alt.tacos", 100, 10, false)];
    assert_eq!(listed_groups(GroupResponse::List(groups)).unwrap().len(), 1);
    assert_eq!(listed_groups(GroupResponse::NewNews), Err(ReplyError::WrongResponse));
}
