use bytes::{Bytes, BytesMut};
use svr::codec::CsExchange;
use svr::errors::CsError;
use svr::handlers::{hand, not_impl};
use svr::header::Header;
use svr::protocol::{
    read_outcome, reply_for, select_route, session_step, CsDisconnectReason, CsInnerMail,
    CsMessage, HelloReq, IntoCsResponse, MsgBody, MsgId, SessionAction, SessionEvent,
};

fn s(x: &str) -> String {
    x.to_string()
}

#[test]
fn header_answers_with_empty_body() {
    let mut h = Header::new();
    h.insert(s("k"), s("v"));
    let r = h.into_cs_resp();
    assert_eq!(r.header.get(&s("k")), Some(&s("v")));
    assert!(r.body.is_empty());
}

#[test]
fn bytes_answer_with_empty_header() {
    let r = Bytes::from_static(b"xyz").into_cs_resp();
    assert_eq!(&r.body[..], b"xyz");
    assert!(r.header.into_pairs().is_empty());
}

#[test]
fn error_answers_with_its_header() {
    let r = CsError::CodeCError(s("bad")).into_cs_resp();
    assert_eq!(r.header.get(&s("err_code")), Some(&s("-1")));
    assert_eq!(r.header.get(&s("err_msg")), Some(&s("CodeCError(\"bad\")")));
    assert!(r.body.is_empty());
}

#[test]
fn reply_keeps_id_and_sequence() {
    let mut h = Header::new();
    h.insert(s("a"), s("b"));
    let resp = svr::protocol::CsResponse { header: h, body: Bytes::from_static(b"\x01\x02") };
    let m = reply_for(9, 77, resp);
    assert_eq!(m.msg_id, 9);
    assert_eq!(m.seq, 77);
    assert_eq!(m.body, vec![1u8, 2]);
    assert_eq!(m.ext.get(&s("a")), Some(&s("b")));
}

#[test]
fn broadcast_mail_reaches_everyone() {
    let m = CsInnerMail::broadcast(12, vec![5, 6]);
    assert!(m.from.is_empty());
    assert!(m.dst.is_empty());
    assert_eq!(m.mail.msg_id, 12);
    assert_eq!(m.mail.seq, 0);
    assert_eq!(m.mail.body, vec![5u8, 6]);
    assert!(m.delivers_to(0));
    assert!(m.delivers_to(u64::MAX));
}

#[test]
fn directed_mail_reaches_only_listed() {
    let mut m = CsInnerMail::broadcast(1, vec![]);
    m.dst = vec![3, 8];
    assert!(m.delivers_to(3));
    assert!(m.delivers_to(8));
    assert!(!m.delivers_to(4));
}

#[test]
fn route_is_first_match() {
    let routes = vec![0u32, 1, 1, 5];
    assert_eq!(select_route(&routes, 1), Some(1));
    assert_eq!(select_route(&routes, 5), Some(3));
    assert_eq!(select_route(&routes, 2), None);
}

#[test]
fn request_message_has_empty_header() {
    let m = CsMessage::request(4, 10, vec![1]);
    assert_eq!(m.msg_id, 4);
    assert_eq!(m.seq, 10);
    assert_eq!(m.body, vec![1u8]);
    assert!(m.ext.into_pairs().is_empty());
}

#[test]
fn msg_id_comes_from_message() {
    let m = CsMessage::request(31, 0, vec![]);
    assert_eq!(MsgId::from_message(&m).0, 31);
}

#[test]
fn ended_stream_reads_as_peer_end() {
    match read_outcome(None) {
        Err(CsError::IOError(t)) => assert_eq!(t, "peer end"),
        _ => panic!("expected peer end"),
    }
    let x = CsExchange { len: 0, data: Bytes::new() };
    assert!(read_outcome(Some(Ok(x))).is_ok());
    assert!(matches!(read_outcome(Some(Err(CsError::Other(s("e"))))), Err(CsError::Other(_))));
}

#[test]
fn session_closes_on_timeout_and_read_error() {
    assert!(matches!(
        session_step(SessionEvent::TimedOut),
        SessionAction::Close(CsDisconnectReason::ReadTimeout)
    ));
    match session_step(SessionEvent::ReadFailed(CsError::IOError(s("reset")))) {
        SessionAction::Close(CsDisconnectReason::ReadError(t)) => {
            assert_eq!(t, "IOError(\"reset\")")
        }
        _ => panic!("expected close"),
    }
    let x = CsExchange::from_encoded(BytesMut::from(&b"ab"[..]));
    match session_step(SessionEvent::FrameArrived(x)) {
        SessionAction::Process(y) => assert_eq!(&y.data[..], b"ab"),
        _ => panic!("expected process"),
    }
}

#[test]
fn hand_answers_fixed_echo() {
    let r = hand(MsgId(0), MsgBody(HelloReq { addr: 12, name: s("haha") }));
    assert_eq!(r.echo, "asdas");
    assert_eq!(r.sequence, 12);
}

#[test]
fn not_impl_reports_err_code() {
    let h = not_impl(MsgId(99));
    assert_eq!(h.get(&s("err_code")), Some(&s("not impl")));
    assert_eq!(h.into_pairs().len(), 1);
}
