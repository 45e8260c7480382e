use bytes::{BufMut, Bytes, BytesMut};
use svr::codec::{CsCodeC, CsExchange};

fn frame(len: u32, data: &[u8]) -> Vec<u8> {
    let mut v = len.to_be_bytes().to_vec();
    v.extend_from_slice(data);
    v
}

#[test]
fn decode_waits_for_header() {
    let mut src = BytesMut::from(&[0u8, 0, 0][..]);
    let r = CsCodeC.decode(&mut src).unwrap();
    assert!(r.is_none());
    assert_eq!(&src[..], &[0u8, 0, 0][..]);
}

#[test]
fn decode_waits_for_payload() {
    let bytes = frame(5, b"abc");
    let mut src = BytesMut::from(&bytes[..]);
    let r = CsCodeC.decode(&mut src).unwrap();
    assert!(r.is_none());
    assert_eq!(&src[..], &bytes[..]);
}

#[test]
fn decode_takes_one_frame_and_leaves_the_rest() {
    let mut bytes = frame(3, b"abc");
    bytes.extend_from_slice(&[9, 8]);
    let mut src = BytesMut::from(&bytes[..]);
    let x = CsCodeC.decode(&mut src).unwrap().unwrap();
    assert_eq!(x.len, 3);
    assert_eq!(&x.data[..], b"abc");
    assert_eq!(&src[..], &[9u8, 8][..]);
}

#[test]
fn decode_reads_big_endian_header() {
    let mut data = vec![7u8; 258];
    data.push(1);
    let mut src = BytesMut::new();
    src.put_slice(&[0, 0, 1, 2]);
    src.put_slice(&data);
    let x = CsCodeC.decode(&mut src).unwrap().unwrap();
    assert_eq!(x.len, 258);
    assert_eq!(x.data.len(), 258);
    assert_eq!(&src[..], &[1u8][..]);
}

#[test]
fn decode_empty_payload() {
    let mut src = BytesMut::from(&[0u8, 0, 0, 0, 42][..]);
    let x = CsCodeC.decode(&mut src).unwrap().unwrap();
    assert_eq!(x.len, 0);
    assert!(x.data.is_empty());
    assert_eq!(&src[..], &[42u8][..]);
}

#[test]
fn encode_appends_header_and_payload() {
    let mut dst = BytesMut::from(&[1u8][..]);
    let item = CsExchange { len: 2, data: Bytes::from_static(b"hi") };
    CsCodeC.encode(item, &mut dst).unwrap();
    assert_eq!(&dst[..], &[1u8, 0, 0, 0, 2, b'h', b'i'][..]);
}

#[test]
fn encode_then_decode_roundtrip() {
    let mut buf = BytesMut::new();
    let payload = b"hello frame".to_vec();
    let item = CsExchange { len: payload.len() as u32, data: Bytes::from(payload.clone()) };
    CsCodeC.encode(item, &mut buf).unwrap();
    buf.put_slice(&[0, 0]);
    let x = CsCodeC.decode(&mut buf).unwrap().unwrap();
    assert_eq!(x.len as usize, payload.len());
    assert_eq!(&x.data[..], &payload[..]);
    assert_eq!(&buf[..], &[0u8, 0][..]);
    assert!(CsCodeC.decode(&mut buf).unwrap().is_none());
}

#[test]
fn two_frames_decode_in_order() {
    let mut bytes = frame(1, b"a");
    bytes.extend(frame(2, b"bc"));
    let mut src = BytesMut::from(&bytes[..]);
    let x = CsCodeC.decode(&mut src).unwrap().unwrap();
    assert_eq!(&x.data[..], b"a");
    let y = CsCodeC.decode(&mut src).unwrap().unwrap();
    assert_eq!(&y.data[..], b"bc");
    assert!(src.is_empty());
}

#[test]
fn from_encoded_counts_the_bytes() {
    let bm = BytesMut::from(&b"12345"[..]);
    let x = CsExchange::from_encoded(bm);
    assert_eq!(x.len, 5);
    assert_eq!(&x.data[..], b"12345");
}
