use svr::client::{is_failed_reply, ClientResponse};
use svr::errors::CsError;
use svr::header::Header;
use svr::protocol::CsMessage;

fn s(x: &str) -> String {
    x.to_string()
}

fn reply(code: Option<&str>) -> CsMessage {
    let mut m = CsMessage::request(3, 44, vec![1, 2]);
    if let Some(c) = code {
        m.ext.insert(s("err_code"), s(c));
    }
    m
}

#[test]
fn failed_reply_needs_nonzero_code() {
    let mut h = Header::new();
    assert!(!is_failed_reply(&h));
    h.insert(s("err_code"), s("0"));
    assert!(!is_failed_reply(&h));
    h.insert(s("err_code"), s("-1"));
    assert!(is_failed_reply(&h));
}

#[test]
fn from_err_reports_handle_error() {
    let r: ClientResponse<u8> =
        ClientResponse::from_err(-1, -1, CsError::HandleError { err_code: 12, err_msg: s("x") });
    assert_eq!(r.msg_id, -1);
    assert_eq!(r.seq, -1);
    assert!(r.msg.is_none());
    assert_eq!(r.header.get(&s("err_code")), Some(&s("12")));
    assert_eq!(r.header.get(&s("err_msg")), Some(&s("x")));
}

#[test]
fn from_err_reports_other_error() {
    let r: ClientResponse<u8> = ClientResponse::from_err(5, 6, CsError::Other(s("encode error")));
    assert_eq!((r.msg_id, r.seq), (5, 6));
    assert_eq!(r.header.get(&s("err_code")), Some(&s("-1")));
    assert_eq!(r.header.get(&s("err_msg")), Some(&s("Other(\"encode error\")")));
}

#[test]
fn failed_reply_has_no_body() {
    let r: ClientResponse<u8> = ClientResponse::from_reply(reply(Some("7")), Ok(1));
    assert_eq!((r.msg_id, r.seq), (3, 44));
    assert!(r.msg.is_none());
    assert_eq!(r.header.get(&s("err_code")), Some(&s("7")));
}

#[test]
fn successful_reply_carries_body() {
    let r: ClientResponse<u8> = ClientResponse::from_reply(reply(Some("0")), Ok(9));
    assert_eq!((r.msg_id, r.seq), (3, 44));
    assert_eq!(r.msg, Some(9));
    let r2: ClientResponse<u8> = ClientResponse::from_reply(reply(None), Ok(8));
    assert_eq!(r2.msg, Some(8));
}

#[test]
fn undecodable_reply_is_other_error() {
    let r: ClientResponse<u8> = ClientResponse::from_reply(reply(None), Err(s("decode err:x")));
    assert_eq!((r.msg_id, r.seq), (-1, -1));
    assert!(r.msg.is_none());
    assert_eq!(r.header.get(&s("err_msg")), Some(&s("Other(\"decode err:x\")")));
}

#[test]
fn server_error_reply_is_read_as_failed() {
    let resp = svr::protocol::IntoCsResponse::into_cs_resp(CsError::HandlerNotFound(2));
    assert!(is_failed_reply(&resp.header));
    let ok_coded = CsError::HandleError { err_code: 0, err_msg: s("fine") }.into_header();
    assert!(!is_failed_reply(&ok_coded));
}
