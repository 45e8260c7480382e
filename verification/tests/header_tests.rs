use svr::errors::CsError;
use svr::header::Header;

fn s(x: &str) -> String {
    x.to_string()
}

#[test]
fn header_insert_and_get() {
    let mut h = Header::new();
    assert!(h.get(&s("a")).is_none());
    h.insert(s("a"), s("1"));
    h.insert(s("b"), s("2"));
    assert_eq!(h.get(&s("a")), Some(&s("1")));
    assert_eq!(h.get(&s("b")), Some(&s("2")));
    assert!(h.get(&s("c")).is_none());
}

#[test]
fn header_insert_replaces() {
    let mut h = Header::new();
    h.insert(s("a"), s("1"));
    h.insert(s("a"), s("2"));
    assert_eq!(h.get(&s("a")), Some(&s("2")));
    let pairs = h.into_pairs();
    assert_eq!(pairs, vec![(s("a"), s("2"))]);
}

#[test]
fn handle_error_header_uses_its_code() {
    let h = CsError::HandleError { err_code: 407, err_msg: s("denied") }.into_header();
    assert_eq!(h.get(&s("err_code")), Some(&s("407")));
    assert_eq!(h.get(&s("err_msg")), Some(&s("denied")));
    assert_eq!(h.into_pairs().len(), 2);
}

#[test]
fn other_error_header_is_minus_one_with_debug_text() {
    let h = CsError::Other(s("boom")).into_header();
    assert_eq!(h.get(&s("err_code")), Some(&s("-1")));
    assert_eq!(h.get(&s("err_msg")), Some(&s("Other(\"boom\")")));
    let h2 = CsError::HandlerNotFound(3).into_header();
    assert_eq!(h2.get(&s("err_msg")), Some(&s("HandlerNotFound(3)")));
}

#[test]
fn header_pairs_copy_every_entry_once() {
    let mut h = Header::new();
    h.insert(s("x"), s("1"));
    h.insert(s("y"), s("2"));
    h.insert(s("x"), s("3"));
    let mut p = h.pairs();
    p.sort();
    assert_eq!(p, vec![(s("x"), s("3")), (s("y"), s("2"))]);
    assert_eq!(h.get(&s("x")), Some(&s("3")));
}
